use qubes_meminfo_writer_ng::mem::{
    checked_should_update, checked_used_memory, compute_used_memory, parse_xen_current_kb,
    should_update,
};

#[test]
fn test_no_swap_no_xen() {
    assert_eq!(compute_used_memory(8_000_000, 6_000_000, None, 0), 2_000_000);
}

#[test]
fn test_with_weighted_swap() {
    // used_ram = 8M - 6M = 2M, swap = 1024+512 = 1536
    assert_eq!(compute_used_memory(8_000_000, 6_000_000, None, 1_536), 2_001_536);
}

#[test]
fn test_xen_override_reduces_effective_total() {
    // Xen says 4 GB; available is 6 GB, so used RAM saturates to 0.
    assert_eq!(compute_used_memory(8_000_000, 6_000_000, Some(4_000_000), 0), 0);
}

#[test]
fn test_xen_override_within_available() {
    // Xen says 7 GB; available is 6 GB, so 1 GB is used RAM.
    assert_eq!(compute_used_memory(8_000_000, 6_000_000, Some(7_000_000), 0), 1_000_000);
}

#[test]
fn test_zero_available_gives_all_used() {
    assert_eq!(compute_used_memory(4_000_000, 0, None, 0), 4_000_000);
}

#[test]
fn test_first_call_always_updates() {
    assert!(should_update(1_000_000, 0, 30_000, 8_000_000));
}

#[test]
fn test_large_change_triggers() {
    assert!(should_update(1_100_000, 1_000_000, 30_000, 8_000_000));
}

#[test]
fn test_exactly_at_threshold_does_not_trigger() {
    // diff == threshold_kb: condition is `diff > threshold_kb` (strict), so no update.
    assert!(!should_update(1_030_000, 1_000_000, 30_000, 8_000_000));
}

#[test]
fn test_small_change_no_pressure_no_update() {
    assert!(!should_update(1_010_000, 1_000_000, 30_000, 8_000_000));
}

#[test]
fn test_pressure_heuristic_rising_usage() {
    let total = 8_000_000u64;
    let used = total * 80 / 100; // 80 %, above the ~77 % threshold
    let prev = used - 20_000; // rising, diff=20_000 > threshold/2=15_000
    assert!(should_update(used, prev, 30_000, total));
}

#[test]
fn test_pressure_heuristic_decreasing_no_update() {
    // Pressure heuristic only fires when usage is INCREASING.
    let total = 8_000_000u64;
    let used = total * 80 / 100;
    let prev = used + 20_000; // usage fell
    assert!(!should_update(used, prev, 30_000, total));
}

#[test]
fn test_pressure_heuristic_below_77pct_no_update() {
    // Usage below the ~77 % pressure threshold: normal threshold applies.
    let total = 8_000_000u64;
    let used = total * 50 / 100; // 50 %, below threshold
    let prev = used - 20_000;
    assert!(!should_update(used, prev, 30_000, total));
}

fn due_by_division(used: i64, prev: i64, threshold: i64, total: i64) -> bool {
    let diff = (used - prev).abs();
    if prev == 0 {
        return true;
    }
    if diff > threshold {
        return true;
    }
    if used > prev && used / 10 > (total + 12) / 13 && diff > threshold / 2 {
        return true;
    }
    false
}

#[test]
fn test_threshold_heuristic_matches_c_formula() {
    let threshold = 30_000i64;
    let total = 8_000_000i64;

    // Test cases: (used, prev), representative values.
    let cases: &[(i64, i64, &str)] = &[
        (1_000_000, 0, "first call – always true"),
        (1_100_000, 1_000_000, "large change – above threshold"),
        (1_010_000, 1_000_000, "small change, no pressure – false"),
        (1_030_000, 1_000_000, "exactly at threshold (not above) – false"),
        (1_031_000, 1_000_000, "one above threshold – true"),
        // Pressure heuristic: usage above ~77 % of total, rising.
        (total * 80 / 100, total * 80 / 100 - 20_000, "pressure: rising above 77%"),
        // Pressure heuristic should NOT fire when falling.
        (total * 80 / 100 - 20_000, total * 80 / 100, "pressure: falling – false"),
        // Pressure heuristic should NOT fire below 77 %.
        (total * 50 / 100, total * 50 / 100 - 20_000, "below 77% – false"),
    ];

    for &(used, prev, label) in cases {
        let by_division = due_by_division(used, prev, threshold, total);
        let due = should_update(used as u64, prev as u64, threshold as u64, total as u64);
        assert_eq!(by_division, due, "mismatch for '{label}'");
    }
}

#[test]
fn test_c_formula_versus_rust_formula_relationship() {
    // Simulate a snapshot: all values in kB.
    let mem_total: u64 = 8_000_000;
    let mem_free: u64 = 1_000_000;
    let buffers: u64 = 200_000;
    let cached: u64 = 2_000_000;
    // MemAvailable includes reclaimable slab on top of the above.
    let reclaimable_slab: u64 = 300_000;
    let mem_available: u64 = mem_free + buffers + cached + reclaimable_slab;

    let swap_total: u64 = 2_000_000;
    let swap_free: u64 = 1_500_000;
    let swap_used = swap_total - swap_free; // = 500_000

    let by_free_memory = mem_total - mem_free - buffers - cached + swap_total - swap_free;

    // No Xen override, no swap weights.
    let used = compute_used_memory(mem_total, mem_available, None, swap_used);

    assert!(
        used <= by_free_memory,
        "used_mem ({used}) should be <= used_mem by free memory ({by_free_memory})"
    );
    // The difference is exactly reclaimable_slab.
    assert_eq!(by_free_memory - used, reclaimable_slab);
}

#[test]
fn test_one_past_threshold_triggers_both_ways() {
    assert!(should_update(1_030_001, 1_000_000, 30_000, 8_000_000));
    assert!(should_update(969_999, 1_000_000, 30_000, 8_000_000));
    assert!(!should_update(970_000, 1_000_000, 30_000, 8_000_000));
}

#[test]
fn test_pressure_boundary_is_exact() {
    // (1_300_000 - 12 + 12) * 10 == 13_000_000 == 1_000_000 * 13
    let total = 1_299_988u64;
    assert!(!should_update(1_000_000, 980_000, 30_000, total));
    assert!(should_update(1_000_001, 980_001, 30_000, total));
    // A change of exactly half the threshold is not enough.
    assert!(!should_update(1_000_001, 985_001, 30_000, total));
}

#[test]
fn test_division_differs_where_quotients_are_equal() {
    // Past the boundary, although both quotients are 100_000.
    let (used, prev, threshold, total) = (1_000_009u64, 980_009u64, 30_000u64, 1_299_988u64);
    assert_eq!(used / 10, (total + 12) / 13);
    assert!(should_update(used, prev, threshold, total));
    assert!(!due_by_division(used as i64, prev as i64, threshold as i64, total as i64));
}

#[test]
fn test_lower_threshold_publishes_more() {
    for threshold in [5_000u64, 9_999, 10_000, 20_000] {
        let due = should_update(1_010_000, 1_000_000, threshold, 8_000_000);
        assert_eq!(due, threshold < 10_000);
    }
}

#[test]
fn test_decision_needs_no_product_when_change_is_large_or_falling() {
    assert!(should_update(u64::MAX, 1, 30_000, u64::MAX));
    assert!(!should_update(u64::MAX - 1, u64::MAX, 30_000, u64::MAX));
}

#[test]
fn test_checked_decision_reports_overflow() {
    assert_eq!(checked_should_update(1_100_000, 1_000_000, 30_000, 8_000_000), Some(true));
    assert_eq!(checked_should_update(1_010_000, 1_000_000, 30_000, 8_000_000), Some(false));
    assert_eq!(checked_should_update(u64::MAX, u64::MAX - 1, 30_000, 8_000_000), None);
    assert_eq!(checked_should_update(1_010_000, 1_000_000, 30_000, u64::MAX), None);
    let most = u64::MAX / 13;
    assert_eq!(checked_should_update(most, most - 1, 30_000, 8_000_000), Some(false));
    assert_eq!(checked_should_update(most + 1, most, 30_000, 8_000_000), None);
    let most = u64::MAX / 10 - 12;
    assert_eq!(checked_should_update(1_010_000, 1_000_000, 30_000, most), Some(false));
    assert_eq!(checked_should_update(1_010_000, 1_000_000, 30_000, most + 1), None);
}

#[test]
fn test_checked_used_memory_reports_overflow() {
    assert_eq!(checked_used_memory(8_000_000, 6_000_000, None, 1_536), Some(2_001_536));
    assert_eq!(checked_used_memory(u64::MAX, 0, None, 0), Some(u64::MAX));
    assert_eq!(checked_used_memory(u64::MAX, 0, None, 1), None);
    assert_eq!(checked_used_memory(0, 0, Some(2), u64::MAX - 1), None);
}

#[test]
fn test_xen_figure_is_trimmed_and_zero_is_unset() {
    assert_eq!(parse_xen_current_kb("4194304\n"), Some(4_194_304));
    assert_eq!(parse_xen_current_kb(" \t+7 \u{3000}"), Some(7));
    assert_eq!(parse_xen_current_kb("0\n"), None);
    assert_eq!(parse_xen_current_kb(""), None);
    assert_eq!(parse_xen_current_kb("12 34"), None);
    assert_eq!(parse_xen_current_kb("-5"), None);
    assert_eq!(parse_xen_current_kb("18446744073709551616"), None);
}
