use qubes_meminfo_writer_ng::config::SwapWeightRule;
use qubes_meminfo_writer_ng::swap::{
    apply_weights, checked_weighted_swap_used_kb, entry_weights, parse_swap_content,
    weighted_swap_used_kb, SwapEntry,
};
use qubes_meminfo_writer_ng::weight::Weight;

fn make_rule(glob: &str, weight: f64) -> SwapWeightRule {
    SwapWeightRule { glob: glob.into(), weight: Weight::from_bits(weight.to_bits()) }
}

#[test]
fn test_parse_basic() {
    let content = "Filename\t\t\tType\t\tSize\tUsed\tPriority\n\
                   /dev/sda2               partition 8388604 0 -2\n\
                   /swapfile               file 2097148 1024 -3\n";
    let entries = parse_swap_content(content);
    assert_eq!(entries.len(), 2);
    assert_eq!(
        entries[0],
        SwapEntry { filename: "/dev/sda2".into(), total_kb: 8_388_604, used_kb: 0 }
    );
    assert_eq!(
        entries[1],
        SwapEntry { filename: "/swapfile".into(), total_kb: 2_097_148, used_kb: 1_024 }
    );
}

#[test]
fn test_parse_only_header_is_empty() {
    let content = "Filename\t\t\tType\t\tSize\tUsed\tPriority\n";
    assert!(parse_swap_content(content).is_empty());
}

#[test]
fn test_parse_blank_lines_skipped() {
    let content = "Filename\t\t\tType\t\tSize\tUsed\tPriority\n\
                   \n\
                   /dev/sda2 partition 1000 0 -2\n";
    let entries = parse_swap_content(content);
    assert_eq!(entries.len(), 1);
    assert_eq!(entries[0].filename, "/dev/sda2");
}

#[test]
fn test_parse_missing_numeric_fields_default_to_zero() {
    // A line with only a filename (all numeric fields absent).
    let content = "Filename\t\t\tType\t\tSize\tUsed\tPriority\n\
                   /dev/sda2\n";
    let entries = parse_swap_content(content);
    assert_eq!(entries.len(), 1);
    assert_eq!(entries[0].total_kb, 0);
    assert_eq!(entries[0].used_kb, 0);
}

#[test]
fn test_weighted_no_entries() {
    assert_eq!(weighted_swap_used_kb(&[], &[]), 0);
}

#[test]
fn test_weighted_full_weight_default() {
    let entries =
        vec![SwapEntry { filename: "/dev/sda2".into(), total_kb: 1000, used_kb: 500 }];
    assert_eq!(weighted_swap_used_kb(&entries, &[]), 500);
}

#[test]
fn test_weighted_half_weight() {
    let entries =
        vec![SwapEntry { filename: "/dev/zram0".into(), total_kb: 1000, used_kb: 1000 }];
    let rules = vec![make_rule("/dev/zram*", 0.5)];
    assert_eq!(weighted_swap_used_kb(&entries, &rules), 500);
}

#[test]
fn test_weighted_zero_weight_excludes_device() {
    let entries =
        vec![SwapEntry { filename: "/dev/sda2".into(), total_kb: 1000, used_kb: 1000 }];
    let rules = vec![make_rule("*", 0.0)];
    assert_eq!(weighted_swap_used_kb(&entries, &rules), 0);
}

#[test]
fn test_weighted_multiple_entries_mixed_weights() {
    let entries = vec![
        SwapEntry { filename: "/dev/zram0".into(), total_kb: 1000, used_kb: 1000 },
        SwapEntry { filename: "/dev/sda2".into(), total_kb: 2000, used_kb: 200 },
    ];
    let rules = vec![make_rule("/dev/zram*", 0.5), make_rule("*", 1.0)];
    // zram0: 1000 * 0.5 = 500, sda2: 200 * 1.0 = 200
    assert_eq!(weighted_swap_used_kb(&entries, &rules), 700);
}

#[test]
fn test_weights_and_amounts_per_entry() {
    let entries = vec![
        SwapEntry { filename: "/dev/zram0".into(), total_kb: 1000, used_kb: 1001 },
        SwapEntry { filename: "/dev/sda2".into(), total_kb: 2000, used_kb: 200 },
    ];
    let weights = entry_weights(&entries, &[make_rule("/dev/zram*", 0.5)]);
    assert_eq!(weights, vec![Weight::from_bits(0.5f64.to_bits()), Weight::one()]);
    assert_eq!(apply_weights(&entries, &weights), vec![500, 200]);
}

#[test]
fn test_weighted_sum_past_64_bits_is_reported() {
    let entries = vec![
        SwapEntry { filename: "/a".into(), total_kb: 0, used_kb: u64::MAX },
        SwapEntry { filename: "/b".into(), total_kb: 0, used_kb: 1 },
    ];
    assert_eq!(checked_weighted_swap_used_kb(&entries, &[]), None);
    assert_eq!(checked_weighted_swap_used_kb(&entries[..1], &[]), Some(u64::MAX));
    assert_eq!(checked_weighted_swap_used_kb(&entries, &[make_rule("/b", 0.0)]), Some(u64::MAX));
}

#[test]
fn test_empty_content_has_no_entries() {
    assert!(parse_swap_content("").is_empty());
    assert!(parse_swap_content("\n").is_empty());
    assert!(parse_swap_content("/dev/sda2 partition 1 1 1").is_empty());
}

#[test]
fn test_last_line_needs_no_line_feed() {
    let entries = parse_swap_content("header\n/swap file 12 3 -2");
    assert_eq!(entries, vec![SwapEntry { filename: "/swap".into(), total_kb: 12, used_kb: 3 }]);
}

#[test]
fn test_carriage_returns_are_whitespace() {
    let entries = parse_swap_content("header\r\n/swap file 12 3\r\n\r\n");
    assert_eq!(entries, vec![SwapEntry { filename: "/swap".into(), total_kb: 12, used_kb: 3 }]);
}

#[test]
fn test_unparseable_lines_ignored() {
    let header = "Filename Type Size Used Priority\n";
    for line in [
        "/dev/sda2 partition abc 5 -2",
        "/dev/sda2 partition 5 abc -2",
        "/dev/sda2 partition -1 0 -2",
        "/dev/sda2 partition 12x",
        "/dev/sda2 partition 99999999999999999999 0 -2",
    ] {
        assert_eq!(parse_swap_content(&format!("{header}{line}\n")), vec![], "{line}");
    }
    let entries =
        parse_swap_content(&format!("{header}/a file x 1 -2\n/b file +12 3 -3\n/c file 4 y\n"));
    assert_eq!(entries, vec![SwapEntry { filename: "/b".into(), total_kb: 12, used_kb: 3 }]);
}

#[test]
fn test_missing_columns_count_as_zero() {
    let entries = parse_swap_content("h\n/swap file 12\n/other file\n");
    assert_eq!(
        entries,
        vec![
            SwapEntry { filename: "/swap".into(), total_kb: 12, used_kb: 0 },
            SwapEntry { filename: "/other".into(), total_kb: 0, used_kb: 0 },
        ]
    );
}

#[test]
fn test_names_may_hold_any_character_but_whitespace() {
    let entries = parse_swap_content("h\n\u{2003}/sw\u{e9}p\\040a\u{a0}file\u{3000}5\u{85}4");
    assert_eq!(
        entries,
        vec![SwapEntry { filename: "/sw\u{e9}p\\040a".into(), total_kb: 5, used_kb: 4 }]
    );
}

/// The entries by way of std's own line and field splitting.
fn entries_by_std(content: &str) -> Vec<SwapEntry> {
    let mut entries = Vec::new();
    for line in content.lines().skip(1) {
        let fields: Vec<&str> = line.split_whitespace().collect();
        if fields.is_empty() {
            continue;
        }
        let number = |i: usize| fields.get(i).map_or(Some(0), |s| s.parse().ok());
        if let (Some(total_kb), Some(used_kb)) = (number(2), number(3)) {
            entries.push(SwapEntry { filename: fields[0].to_string(), total_kb, used_kb });
        }
    }
    entries
}

#[test]
fn test_parsing_agrees_with_std_splitting() {
    let alphabet = ['\n', '\r', ' ', '\t', '1', '9', 'a', '+', '-', '\u{a0}', '\u{e9}', '\n'];
    let mut state = 0x2545_f491_4f6c_dd1du64;
    for _ in 0..3_000 {
        let mut content = String::new();
        for _ in 0..40 {
            state ^= state << 13;
            state ^= state >> 7;
            state ^= state << 17;
            content.push(alphabet[(state % 12) as usize]);
        }
        assert_eq!(parse_swap_content(&content), entries_by_std(&content), "{content:?}");
    }
}

#[test]
fn test_weights_of_at_most_one_count_no_more() {
    let entries = vec![
        SwapEntry { filename: "/dev/zram0".into(), total_kb: 1000, used_kb: 999 },
        SwapEntry { filename: "/dev/sda2".into(), total_kb: 2000, used_kb: 1 << 53 },
    ];
    for (a, b) in [(0.0, 1.0), (0.3, 0.7), (1.0, 1.0), (0.9999999999999999, 1.0)] {
        let rules = vec![make_rule("/dev/zram*", a), make_rule("*", b)];
        assert!(weighted_swap_used_kb(&entries, &rules) <= 999 + (1 << 53));
    }
    // Above one a swap area may count for more.
    assert_eq!(weighted_swap_used_kb(&entries[..1], &[make_rule("*", 2.0)]), 1998);
}
