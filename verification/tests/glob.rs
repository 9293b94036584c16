use qubes_meminfo_writer_ng::glob::{glob_impl, glob_matches};

#[test]
fn test_exact_match() {
    assert!(glob_matches("/dev/sda2", "/dev/sda2"));
    assert!(!glob_matches("/dev/sda2", "/dev/sda3"));
}

#[test]
fn test_star_wildcard() {
    assert!(glob_matches("/dev/zram*", "/dev/zram0"));
    assert!(glob_matches("/dev/zram*", "/dev/zram42"));
    assert!(glob_matches("*", "/dev/sda2"));
    assert!(glob_matches("*", ""));
    assert!(!glob_matches("/dev/zram*", "/dev/sda2"));
}

#[test]
fn test_star_matches_empty_suffix_or_prefix() {
    assert!(glob_matches("abc*", "abc")); // star matches empty string at end
    assert!(glob_matches("*abc", "abc")); // star matches empty string at start
    assert!(glob_matches("a*b", "ab")); // star matches empty string in middle
}

#[test]
fn test_star_matches_multiple_chars() {
    assert!(glob_matches("a*b", "a123b"));
    assert!(glob_matches("*b", "aaab"));
}

#[test]
fn test_question_wildcard() {
    assert!(glob_matches("/dev/sd?2", "/dev/sda2"));
    assert!(glob_matches("/dev/sd?2", "/dev/sdb2"));
    assert!(!glob_matches("/dev/sd?2", "/dev/sda3"));
    assert!(glob_matches("/dev/sd?", "/dev/sda")); // ? matches 'a'
    assert!(!glob_matches("/dev/sd?", "/dev/sdab")); // ? matches only one char
}

#[test]
fn test_empty_pattern() {
    assert!(glob_matches("", "")); // empty matches empty
    assert!(!glob_matches("", "a")); // empty pattern doesn't match non-empty
}

#[test]
fn test_question_does_not_match_empty() {
    assert!(!glob_matches("?", "")); // ? requires exactly one char
}

#[test]
fn test_no_partial_match() {
    assert!(!glob_matches("abc", "abcd")); // pattern shorter than string
    assert!(!glob_matches("abcd", "abc")); // pattern longer than string
}

#[test]
fn test_question_counts_chars_not_bytes() {
    assert!(glob_matches("/swap-?", "/swap-\u{e9}"));
    assert!(!glob_matches("/swap-??", "/swap-\u{e9}"));
    assert!(glob_matches("*\u{e9}?", "caf\u{e9}s"));
}

#[test]
fn test_matching_is_case_sensitive() {
    assert!(!glob_matches("/DEV/*", "/dev/sda2"));
}

#[test]
fn test_classes_braces_and_escapes_are_literal() {
    assert!(glob_matches("[ab]", "[ab]"));
    assert!(!glob_matches("[ab]", "a"));
    assert!(!glob_matches("{a,b}", "a"));
    assert!(!glob_matches("\\*", "*"));
    assert!(glob_matches("\\*", "\\anything"));
}

#[test]
fn test_star_crosses_directory_separators() {
    assert!(glob_matches("/dev/*0", "/dev/block/zram0"));
}

#[test]
fn test_star_backtracks() {
    assert!(glob_matches("*a*b*c", "xxaxxbxxcxbc"));
    assert!(!glob_matches("*a*b*c", "xxcxxbxxa"));
    assert!(glob_matches("a**b", "ab"));
}

/// The set of prefix lengths of `name` that each prefix of the pattern matches.
fn matches_by_table(pattern: &[char], name: &[char]) -> bool {
    let mut row = vec![false; name.len() + 1];
    row[0] = true;
    for &p in pattern {
        let mut next = vec![false; name.len() + 1];
        for j in 0..=name.len() {
            next[j] = match p {
                '*' => row[j] || (j > 0 && next[j - 1]),
                '?' => j > 0 && row[j - 1],
                c => j > 0 && row[j - 1] && name[j - 1] == c,
            };
        }
        row = next;
    }
    row[name.len()]
}

#[test]
fn test_all_short_patterns_agree_with_table() {
    let alphabet = ['a', '*', '?'];
    let names = ["", "a", "b", "ab", "ba", "aa", "aab", "aba", "bab", "a*", "?a"];
    for n in 0..5u32 {
        for code in 0..3usize.pow(n) {
            let mut rest = code;
            let mut pattern = Vec::new();
            for _ in 0..n {
                pattern.push(alphabet[rest % 3]);
                rest /= 3;
            }
            let text: String = pattern.iter().collect();
            for name in names {
                let chars: Vec<char> = name.chars().collect();
                assert_eq!(
                    glob_matches(&text, name),
                    matches_by_table(&pattern, &chars),
                    "{text} {name}"
                );
            }
        }
    }
}

#[test]
fn test_doubled_star_is_one_star() {
    for name in ["", "a", "ab", "axb", "axyb", "b", "xab"] {
        assert_eq!(glob_matches("a**b", name), glob_matches("a*b", name), "{name}");
        assert_eq!(glob_matches("**b", name), glob_matches("*b", name), "{name}");
    }
}

#[test]
fn test_wildcard_matches_no_less() {
    for name in ["/dev/sda2", "/dev/sdb2"] {
        assert!(glob_matches(name, name));
        assert!(glob_matches("/dev/sd?2", name));
        assert!(glob_matches("/dev/sd*2", name));
    }
}

#[test]
fn test_joined_patterns_match_joined_names() {
    assert!(glob_matches("/dev/*", "/dev/sd") && glob_matches("?2", "a2"));
    assert!(glob_matches("/dev/*?2", "/dev/sda2"));
}

#[test]
fn test_matching_on_characters() {
    assert!(glob_impl(&['*', 'b'], &['a', 'a', 'b']));
    assert!(!glob_impl(&['?', 'b'], &['a', 'a', 'b']));
}
