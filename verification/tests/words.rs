//! The texts that are shown and the words that are read.

use harness_terminal::text::{
    ascii_lower, chars_of, contains, decimal, drop_last_char, find_from, is_blank, lowercase,
    same_text, string_from, trim, trim_end, with_char,
};
use harness_terminal::words::{
    click_target, clip_dots, copy_no_match_flash, expand_click_word, fmt_duration,
    fmt_reconnect_summary, focus_snippet, fuzzy_match, join, join_labels, pad, parse_remote_attach,
    prepend_capped,
};

/// The fleet-search row snippet centers on the match so a long line's hit is on screen.
#[test]
fn focus_snippet_centers_on_the_match_and_clips() {
    // A short line already fits whole.
    assert_eq!(focus_snippet("fix here", 0, 40), "fix here");
    // Empty / max-0 are safe.
    assert_eq!(focus_snippet("", 0, 10), "");
    assert_eq!(focus_snippet("abc", 0, 0), "");
    // A long line clips to <= budget and keeps the match near the middle.
    let long = "a".repeat(50) + "HIT" + &"b".repeat(50);
    let s = focus_snippet(&long, 51, 24);
    assert!(s.chars().count() <= 24, "snippet {s:?} exceeds budget");
    assert!(
        s.contains("HIT"),
        "match must be in the centered snippet: {s:?}"
    );
    // The match sits within the window (not at the very edge) when there's room on both sides.
    assert!(s.starts_with('…') && s.ends_with('…'));
    // A line whose match is near the end still contains it and stays in budget.
    let tail_line = "x".repeat(10) + "MATCH";
    let st = focus_snippet(&tail_line, 10, 16);
    assert!(st.contains("MATCH") && st.chars().count() <= 16);
    // A match near the very start stays in budget with a trailing ellipsis.
    let st2 = focus_snippet(&("HIT".to_string() + &"z".repeat(60)), 0, 20);
    assert!(st2.contains("HIT") && st2.chars().count() <= 20);
}

/// `host[:port][/session]` parses into (addr, optional attach-session). A bare host or host:port
/// means a fresh spawn; `host:port/session` means attach to that existing named session.
#[test]
fn parse_remote_attach_modes() {
    // Fresh spawn: plain host, host:port, and blank all yield no attach target.
    assert_eq!(
        parse_remote_attach("build.example.com"),
        ("build.example.com".to_string(), None)
    );
    assert_eq!(
        parse_remote_attach("10.0.0.4:18473"),
        ("10.0.0.4:18473".to_string(), None)
    );
    assert_eq!(parse_remote_attach(""), ("".to_string(), None));
    // Attach-existing: host/session and host:port/session, with whitespace trimmed.
    assert_eq!(
        parse_remote_attach("build.example.com/agent-runs"),
        (
            "build.example.com".to_string(),
            Some("agent-runs".to_string())
        )
    );
    assert_eq!(
        parse_remote_attach("10.0.0.4:18473/agent-runs"),
        ("10.0.0.4:18473".to_string(), Some("agent-runs".to_string()))
    );
    assert_eq!(
        parse_remote_attach(" host / my-session "),
        ("host".to_string(), Some("my-session".to_string()))
    );
    // A trailing slash with an empty session is not an attach (falls back to fresh host) and
    // the stray slash is stripped so it never becomes part of the DNS name.
    assert_eq!(
        parse_remote_attach("build.example.com/"),
        ("build.example.com".to_string(), None)
    );
    assert_eq!(
        parse_remote_attach("build.example.com/ "),
        ("build.example.com".to_string(), None)
    );
    assert_eq!(parse_remote_attach("  "), ("".to_string(), None));
    assert_eq!(
        parse_remote_attach("10.0.0.4:18473/"),
        ("10.0.0.4:18473".to_string(), None)
    );
}

/// Fuzzy palette matching: subsequence (not just substring), case-insensitive, blank matches all.
#[test]
fn fuzzy_match_is_subsequence_and_case_insensitive() {
    // Subsequence: "crd" spans "cursor codex" out of order.
    assert!(fuzzy_match("crd", "cursor codex"));
    // Case-insensitive.
    assert!(fuzzy_match("FLEET", "fleet grid"));
    assert!(fuzzy_match("fleet", "Fleet Grid"));
    // Contiguous + word-ish matches work naturally.
    assert!(fuzzy_match("bro", "broadcast a line"));
    // Blank query matches everything.
    assert!(fuzzy_match("", "anything"));
    // Out-of-order / missing characters do NOT match.
    assert!(!fuzzy_match("xyz", "qwerty"));
    assert!(!fuzzy_match("crd", "codex")); // r before c? no: c,o,d,e,x → c,d match but r never
}

/// A fleet-wide broadcast produces N busy events; the list should collapse to "all N sessions"
/// rather than a long comma list.
#[test]
fn join_labels_collapses_large_fleet() {
    assert_eq!(
        join_labels(&["a".into(), "b".into(), "c".into()]),
        "a, b, c"
    );
    assert_eq!(
        join_labels(&["w".into(), "x".into(), "y".into(), "z".into()]),
        "all 4 sessions"
    );
}

/// Cmd+click word expansion picks the whole token, not the shell quoting around it.
#[test]
fn click_word_expands_to_token() {
    let line = "see https://example.com/foo in the log (src/main.rs)";
    assert_eq!(expand_click_word(line, 25), "https://example.com/foo");
    // The substring is a byte index into the line; find it by locating the token start.
    let url_start = line.find("https").unwrap();
    assert_eq!(
        expand_click_word(line, url_start + 5),
        "https://example.com/foo"
    );
    // A path inside parens expands to the path, stopping at ')'.
    let p = line.find("src/main.rs").unwrap();
    assert_eq!(expand_click_word(line, p), "src/main.rs");
    // A click on a boundary returns an empty token.
    assert_eq!(expand_click_word("   ", 1), "");
}

/// A single word on its own line is returned whole.
#[test]
fn click_word_single_token() {
    assert_eq!(expand_click_word("README.md", 3), "README.md");
}

/// Find-history MRU dedups (a re-run moves to the front), caps at the max, and ignores blanks.
#[test]
fn prepend_capped_dedups_caps_and_skips_blank() {
    let mut h: Vec<String> = vec![];
    // Blank is ignored.
    prepend_capped(&mut h, "", 4);
    assert!(h.is_empty());
    // New runs go to the front, newest first.
    prepend_capped(&mut h, "zzz", 4);
    prepend_capped(&mut h, "rust", 4);
    prepend_capped(&mut h, "aider", 4);
    assert_eq!(h, &["aider", "rust", "zzz"]);
    // Re-running an existing query moves it to the front (dedup).
    prepend_capped(&mut h, "rust", 4);
    assert_eq!(h, &["rust", "aider", "zzz"]);
    // Cap is honored: the oldest drops off when a 5th unique query arrives.
    prepend_capped(&mut h, "codex", 4);
    prepend_capped(&mut h, "tmux", 4);
    assert_eq!(h.len(), 4);
    assert_eq!(h[0], "tmux");
    assert!(
        !h.iter().any(|x| x == "zzz"),
        "oldest entry should be dropped"
    );
}

/// Idle-age formatting stays compact and readable at every scale — seconds, minutes, hours,
/// days — never a raw millisecond dump.
#[test]
fn fmt_duration_readable_units() {
    assert_eq!(fmt_duration(0), "0s");
    assert_eq!(fmt_duration(59), "59s");
    assert_eq!(fmt_duration(60), "1m");
    assert_eq!(fmt_duration(3599), "59m");
    assert_eq!(fmt_duration(3600), "1h");
    assert_eq!(fmt_duration(23 * 3600), "23h");
    assert_eq!(fmt_duration(24 * 3600), "1d");
}

/// `clip_dots` character-clips (not byte-clips) and always signals a cut with "…", never grows
/// text past the bound, and survives multi-byte glyphs.
#[test]
fn clip_dots_truncates_on_char_boundaries() {
    // Under the bound: returned verbatim, no ellipsis.
    assert_eq!(
        clip_dots("tunnel connect refused", 40),
        "tunnel connect refused"
    );
    assert_eq!(clip_dots("", 5), "");
    // At the bound exactly: nothing cut, no ellipsis.
    assert_eq!(clip_dots("abcde", 5), "abcde");
    // Over the bound: clipped to max chars plus an ellipsis (so output > max by one glyph).
    assert_eq!(clip_dots("abcdef", 5), "abcde…");
    // A clipped multi-byte reason keeps each char whole (Han + space) without splitting bytes.
    assert_eq!(clip_dots("主机 refused—retrying", 3), "主机 …");
    // Zero bound collapses to just the ellipsis.
    assert_eq!(clip_dots("anything", 0), "…");
}

/// The copy-mode-search "no match" flash names the missy query so a diver can see what failed,
/// trims whitespace, stays generic for a blank query, and clips a very long query.
#[test]
fn copy_no_match_flash_names_the_query() {
    assert_eq!(copy_no_match_flash("fix"), "copy: no match /fix");
    assert_eq!(
        copy_no_match_flash("  fix  "),
        "copy: no match /fix",
        "query text is trimmed"
    );
    assert_eq!(
        copy_no_match_flash("   "),
        "copy: no match",
        "blank query falls back to the generic message"
    );
    let long = "x".repeat(100);
    assert_eq!(
        copy_no_match_flash(&long),
        format!("copy: no match /{}…", "x".repeat(40)),
        "over-long query is clipped with an ellipsis"
    );
}

/// `fmt_reconnect_summary` reports the count and clips the still-down host+reason detail so a
/// fleet-wide reconnect toast stays readable instead of dumping every failure line.
#[test]
fn reconnect_summary_reports_hosts_still_down() {
    assert_eq!(fmt_reconnect_summary(2, &[]), "reconnect-all: 2 reached");
    assert_eq!(
        fmt_reconnect_summary(1, &[("build02".to_string(), "refused".to_string())]),
        "reconnect-all: 1 reached, 1 still down — build02: refused"
    );
    // A long list is clipped to the 48-char toast budget while still saying how many are left.
    let big: Vec<(String, String)> = (0..8)
        .map(|i| {
            (
                format!("host-{i}"),
                "tunnel timeout while retrying".to_string(),
            )
        })
        .collect();
    let s = fmt_reconnect_summary(0, &big);
    assert!(s.starts_with("reconnect-all: 0 reached, 8 still down — "));
    assert!(s.ends_with('…'));
}

/// `Cmd`/`Alt`-click word expansion: returns the contiguous run of non-boundary characters
/// containing the clicked column. Boundaries are whitespace and `()"\'<>[]`. Purely local, so a
/// click in the middle of a URL/path expands exactly that token.
#[test]
fn expand_click_word_expands_contiguous_token() {
    // Middle of a URL.
    assert_eq!(
        expand_click_word("open https://a.com/path now", 8),
        "https://a.com/path"
    );
    // A path token joined by non-boundaries (dashes, dots, slashes stay in the token).
    assert_eq!(
        expand_click_word("cd /Users/me/project-x/", 12),
        "/Users/me/project-x/"
    );
    // Leading/trailing boundary stops the token exactly.
    // Clicking on a boundary column falls back to the adjacent left token.
    assert_eq!(expand_click_word("hello world", 5), "hello");
    // Click on the token itself (the 'b' at index 7) expands to that token.
    assert_eq!(expand_click_word("(go to b) ...", 7), "b");
    // Click at the start / past-the-end column is clamped, not a panic.
    assert_eq!(expand_click_word("abc", 0), "abc");
    assert_eq!(expand_click_word("abc", 99), "abc");
    // A single-character token.
    assert_eq!(expand_click_word("[x]", 1), "x");
}

#[test]
fn parts_are_joined_in_order() {
    let v = vec!["a".to_string(), "b".to_string(), "c".to_string()];
    assert_eq!(join(&v, ", "), "a, b, c");
    assert_eq!(join(&v[..1], ", "), "a");
    assert_eq!(join(&[], ", "), "");
}

#[test]
fn padding_counts_characters() {
    assert_eq!(pad("ab", 4), "ab  ");
    assert_eq!(pad("äb", 3), "äb ");
    assert_eq!(pad("abc", 2), "abc");
}

/// A link under the pointer is what a click means, else the word there. The column counts
/// characters, so that a wide text in front does not shift it.
#[test]
fn a_click_means_the_link_or_the_word() {
    assert_eq!(
        click_target(Some("https://a.example/x"), "see this", 0),
        "https://a.example/x"
    );
    assert_eq!(click_target(None, "open src/main.rs now", 7), "src/main.rs");
    assert_eq!(click_target(None, "äöü src/main.rs", 5), "src/main.rs");
    assert_eq!(click_target(None, "", 3), "");
}

/// A clipped text holds at most one character more than the bound.
#[test]
fn clipping_is_bounded() {
    for n in 0..10 {
        assert!(clip_dots("abcdefgh", n).chars().count() <= n + 1);
    }
}

/// A recalled query stands in front and nowhere else.
#[test]
fn a_recalled_query_stands_once() {
    let mut h = vec!["a".to_string(), "b".to_string(), "c".to_string()];
    prepend_capped(&mut h, "b", 3);
    assert_eq!(h, &["b", "a", "c"]);
    prepend_capped(&mut h, "d", 3);
    assert_eq!(h, &["d", "b", "a"]);
}

/// A snippet keeps to its bound and shows the character that it is centered on.
#[test]
fn a_snippet_fits_and_shows_its_column() {
    let row = "abcdefghijklmnopqrstuvwxyz";
    for col in 0..26 {
        let s = focus_snippet(row, col, 9);
        assert!(s.chars().count() <= 9, "{s:?}");
        assert!(s.contains(&row[col..col + 1]), "{col}: {s:?}");
    }
}

#[test]
fn durations_change_unit_where_the_next_begins() {
    assert_eq!(fmt_duration(u64::MAX), format!("{}d", u64::MAX / 86400));
    assert_eq!(fmt_duration(86399), "23h");
    assert_eq!(fmt_duration(172800), "2d");
}

#[test]
fn small_text_operations() {
    assert_eq!(decimal(0), "0");
    assert_eq!(decimal(18446744073709551615), "18446744073709551615");
    assert_eq!(trim("\t a b \n"), "a b");
    assert_eq!(trim_end("  a  "), "  a");
    assert_eq!(ascii_lower("ÄbC"), "Äbc");
    assert_eq!(lowercase("ÄbC"), "äbc");
    assert_eq!(lowercase("AbC-Z1"), "abc-z1");
    assert!(is_blank("") && is_blank(" \n\t\u{a0}") && !is_blank(" x "));
    assert_eq!(with_char("ab", 'ü'), "abü");
    assert_eq!(drop_last_char("abü"), "ab");
    assert_eq!(drop_last_char(""), "");
    assert!(contains("abcdef", "cde"));
    assert!(!contains("abcdef", "ce"));
    assert!(contains("", ""));
    assert!(same_text("ab", "ab"));
    assert!(!same_text("ab", "abc"));
    let v = chars_of("häh");
    assert_eq!(v, vec!['h', 'ä', 'h']);
    assert_eq!(string_from(&v, 1, 3), "äh");
    assert_eq!(find_from(&v, &vec!['h'], 1), Some(2));
    assert_eq!(find_from(&v, &vec!['x'], 0), None);
}
