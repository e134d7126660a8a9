use webcodex::command::{
    err_cmd, managed_worktree_error, ok_cmd, project_error_cmd, structured_project_error_cmd,
};
use webcodex::digest::hash_field;
use webcodex::git::{
    exact_git_commit, is_git_object_hex, is_lower_hex, listed_worktrees,
    managed_worktree_git_cli_path, managed_worktree_git_text, object_name, GitOutput,
};
use webcodex::json::{
    add_field, number_value, optional_bool, optional_text, parse_json, parse_json_or_message,
    render_json, set_field, signed_value, text_value, JsonValue,
};
use webcodex::text::{
    byte_count, clip_bytes, comes_before, decimal_text, has_prefix, has_suffix, is_one_of, is_whitespace, joined,
    lines, only_digits, only_lower_hex, parse_u16, same_text, split, to_ascii_lower, trim,
    trim_end, trim_start,
};

#[test]
fn white_space_is_that_of_unicode() {
    for code in 0..=0x10ffff_u32 {
        if let Some(ch) = char::from_u32(code) {
            assert_eq!(is_whitespace(ch), ch.is_whitespace(), "{code:x}");
        }
    }
}

#[test]
fn trimming_takes_white_space_off_the_ends() {
    for text in ["", "  ", " a b ", "\u{3000}a\u{2003}", "a", "\u{feff}a\t"] {
        assert_eq!(trim(text), text.trim());
        assert_eq!(trim_start(text), text.trim_start());
        assert_eq!(trim_end(text), text.trim_end());
    }
}

#[test]
fn texts_split_as_written() {
    for text in ["", "/", "a/b", "a//b/", "ä/ö"] {
        let expected: Vec<&str> = text.split('/').collect();
        assert_eq!(split(text, '/'), expected);
    }
    for text in ["", "\n", "a", "a\n", "a\r\nb", "a\r", "\r\n\n", "a\r\r\n"] {
        let expected: Vec<&str> = text.lines().collect();
        assert_eq!(lines(text), expected, "{text:?}");
    }
}

#[test]
fn bytes_and_digits_are_counted() {
    assert_eq!(byte_count("aä…𝄞"), 10);
    assert!(only_digits("0123"));
    assert!(!only_digits("12a"));
    assert!(only_lower_hex("0af9"));
    assert!(!only_lower_hex("0AF9"));
    assert_eq!(decimal_text(0), "0");
    assert_eq!(decimal_text(u64::MAX), u64::MAX.to_string());
    assert_eq!(to_ascii_lower("ÄAbZ"), "Äabz");
    assert_eq!(joined("ab", "c"), "abc");
    assert!(same_text("ä", "ä"));
    assert!(!same_text("a", "b"));
    assert!(has_prefix("abc", "ab"));
    assert!(!has_prefix("abc", "b"));
    assert!(has_suffix("abc", "bc"));
    assert!(!has_suffix("abc", "ab"));
    assert!(is_one_of("b", &["a", "b"]));
    assert!(!is_one_of("c", &["a", "b"]));
}

#[test]
fn small_numbers_are_read_as_the_standard_library_reads_them() {
    for text in ["", "+", "-1", "+7", "0", "007", "65535", "65536", "99999999999999999999", "1 ", "٣"] {
        assert_eq!(parse_u16(text), text.parse::<u16>().ok(), "{text:?}");
    }
}

#[test]
fn clipping_ends_at_a_character() {
    assert_eq!(clip_bytes("aä…", 10), "aä…");
    assert_eq!(clip_bytes("aä…", 5), "aä");
    assert_eq!(clip_bytes("aä…", 2), "a");
    assert_eq!(clip_bytes("…", 2), "");
}

#[test]
fn documents_are_read_and_written() {
    let tree = parse_json("{\"a\": [1, -2, 1.5, true, null, \"x\\n\"], \"b\": {}}").unwrap();
    let items = tree.get("a").unwrap().as_array().unwrap();
    assert_eq!(items.len(), 6);
    assert_eq!(items[0].as_u64(), Some(1));
    assert_eq!(items[0].as_i64(), Some(1));
    assert_eq!(items[1].as_u64(), None);
    assert_eq!(items[1].as_i64(), Some(-2));
    assert_eq!(items[2].as_u64(), None);
    assert_eq!(items[3].as_bool(), Some(true));
    assert!(matches!(items[4], JsonValue::Null));
    assert_eq!(items[5].as_text(), Some("x\n"));
    assert_eq!(
        render_json(&tree),
        "{\"a\":[1,-2,1.5,true,null,\"x\\n\"],\"b\":{}}"
    );
    assert_eq!(render_json(&tree.duplicate()), render_json(&tree));
}

#[test]
fn numbers_are_written_as_they_were_read() {
    let mut fraction: u64 = 88172645463325252;
    for _ in 0..2000 {
        fraction ^= fraction << 13;
        fraction ^= fraction >> 7;
        fraction ^= fraction << 17;
        let text = format!("[{}.{}e-{}]", fraction % 10, fraction, fraction % 300);
        let held: serde_json::Value = serde_json::from_str(&text).unwrap();
        assert_eq!(render_json(&parse_json(&text).unwrap().duplicate()), held.to_string());
    }
    assert_eq!(render_json(&number_value(u64::MAX)), "18446744073709551615");
    assert_eq!(render_json(&signed_value(i64::MIN)), "-9223372036854775808");
    assert_eq!(render_json(&signed_value(7)), "7");
}

#[test]
fn texts_are_ordered_as_the_standard_library_orders_them() {
    let texts = ["", "a", "ab", "b", "B", "aé", "a\u{10000}", "a\u{ffff}", "git_log", "git_status"];
    for a in texts {
        for b in texts {
            assert_eq!(comes_before(a, b), a < b, "{a} {b}");
        }
    }
}

#[test]
fn a_text_that_is_no_document_is_refused() {
    assert!(parse_json("{").is_none());
    let message = parse_json_or_message("{").unwrap_err();
    assert_eq!(
        message,
        serde_json::from_str::<serde_json::Value>("{").unwrap_err().to_string()
    );
}

#[test]
fn fields_are_added_and_replaced() {
    let mut fields = Vec::new();
    add_field(&mut fields, "a", text_value("1"));
    add_field(&mut fields, "b", number_value(7));
    let fields = set_field(fields, "a", signed_value(-3));
    let fields = set_field(fields, "c", optional_bool(Some(true)));
    let fields = set_field(fields, "d", optional_text(None));
    let tree = JsonValue::Object(fields);
    assert_eq!(
        render_json(&tree),
        "{\"a\":-3,\"b\":7,\"c\":true,\"d\":null}"
    );
    assert_eq!(tree.text_field("a"), None);
    assert_eq!(tree.bool_field("c"), Some(true));
    assert!(tree.get("e").is_none());
}

#[test]
fn results_of_commands_are_documents() {
    let document = parse_json("{\"ok\": true}").unwrap();
    let done = ok_cmd(12, &document);
    assert_eq!(done.exit_code, Some(0));
    assert_eq!(done.stdout.as_deref(), Some("{\"ok\":true}"));
    assert_eq!(done.duration_ms, Some(12));
    let failed = err_cmd(3, "broken");
    assert_eq!(failed.error.as_deref(), Some("broken"));
    let refused = project_error_cmd(4, "operation_failed");
    assert_eq!(refused.exit_code, Some(1));
    assert_eq!(
        refused.stdout.as_deref(),
        Some("{\"error_code\":\"operation_failed\"}")
    );
    let mut fields = Vec::new();
    add_field(&mut fields, "error_kind", text_value("other"));
    add_field(&mut fields, "note", text_value("n"));
    let structured = structured_project_error_cmd(5, "worktree_git_failed", true, fields);
    let document = parse_json(structured.stdout.as_deref().unwrap()).unwrap();
    assert_eq!(document.text_field("error_code"), Some("worktree_git_failed"));
    assert_eq!(document.text_field("error_kind"), Some("other"));
    assert_eq!(document.text_field("failure_kind"), Some("worktree_git_failed"));
    assert_eq!(document.bool_field("state_changed"), Some(true));
    assert_eq!(document.text_field("note"), Some("n"));
    let worktree = managed_worktree_error(6, "source_dirty", false, Some("HEAD"), None, Some(true));
    let document = parse_json(worktree.stdout.as_deref().unwrap()).unwrap();
    assert_eq!(document.text_field("base_ref"), Some("HEAD"));
    assert!(matches!(document.get("base_sha"), Some(JsonValue::Null)));
    assert_eq!(document.bool_field("source_dirty"), Some(true));
}

fn output(success: bool, stdout: &[u8], stdout_capped: bool, stderr_capped: bool) -> GitOutput {
    GitOutput { success, stdout: stdout.to_vec(), stdout_capped, stderr_capped }
}

#[test]
fn text_from_git_is_whole_and_valid() {
    assert_eq!(
        managed_worktree_git_text(output(true, b" main\n", false, false)).as_deref(),
        Some("main")
    );
    assert!(managed_worktree_git_text(output(false, b"main", false, false)).is_none());
    assert!(managed_worktree_git_text(output(true, b"main", true, false)).is_none());
    assert!(managed_worktree_git_text(output(true, b"main", false, true)).is_none());
    assert!(managed_worktree_git_text(output(true, b"\xff", false, false)).is_none());
}

#[test]
fn a_commit_is_a_whole_object_name() {
    let sha = "0123456789ABCDEF0123456789abcdef01234567";
    assert_eq!(
        exact_git_commit(output(true, format!("{sha}\n").as_bytes(), false, true)).as_deref(),
        Some("0123456789abcdef0123456789abcdef01234567")
    );
    let long = "a".repeat(64);
    assert_eq!(
        exact_git_commit(output(true, long.as_bytes(), false, false)).as_deref(),
        Some(long.as_str())
    );
    assert!(exact_git_commit(output(true, b"abc", false, false)).is_none());
    assert!(exact_git_commit(output(true, "g".repeat(40).as_bytes(), false, false)).is_none());
    assert!(exact_git_commit(output(false, sha.as_bytes(), false, false)).is_none());
    assert!(exact_git_commit(output(true, sha.as_bytes(), true, false)).is_none());
    assert!(object_name(sha));
    assert!(!object_name("0123"));
    assert!(is_lower_hex("abcd", 4));
    assert!(!is_lower_hex("abcd", 5));
    assert!(!is_lower_hex("ABCD", 4));
    assert!(is_git_object_hex(&"b".repeat(40)));
    assert!(!is_git_object_hex(sha));
    assert!(!is_git_object_hex(&"b".repeat(41)));
}

#[test]
fn listed_worktrees_are_those_that_git_names() {
    let listing = "worktree /a b\nHEAD 00\nbranch refs/heads/x\n\nworktree /c\nlocked worktree /d\n";
    assert_eq!(listed_worktrees(listing), ["/a b", "/c"]);
}

#[test]
fn managed_worktree_git_cli_path_normalizes_only_verbatim_local_disk_paths() {
    assert_eq!(
        managed_worktree_git_cli_path(r"\\?\C:\workspace\managed", true),
        r"C:\workspace\managed"
    );
    assert_eq!(
        managed_worktree_git_cli_path(r"C:\workspace\managed", true),
        r"C:\workspace\managed"
    );
    assert_eq!(
        managed_worktree_git_cli_path(r"\\server\share\managed", true),
        r"\\server\share\managed"
    );
}

#[test]
fn paths_are_left_alone_off_windows() {
    assert_eq!(
        managed_worktree_git_cli_path(r"\\?\C:\workspace\managed", false),
        r"\\?\C:\workspace\managed"
    );
    assert_eq!(
        managed_worktree_git_cli_path(r"\\?\UNC\server\share", true),
        r"\\?\UNC\server\share"
    );
}

#[test]
fn framed_fields_are_told_apart() {
    let mut one = Vec::new();
    hash_field(&mut one, "ab");
    hash_field(&mut one, "c");
    let mut other = Vec::new();
    hash_field(&mut other, "a");
    hash_field(&mut other, "bc");
    assert_ne!(one, other);
    assert_eq!(one[..10], [0, 0, 0, 0, 0, 0, 0, 2, b'a', b'b']);
}
