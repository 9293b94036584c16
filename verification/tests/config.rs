use qubes_meminfo_writer_ng::config::{
    default_delay_us, default_threshold_kb, parse_config, swap_weight, Config, ConfigWarning,
    LoadError, SwapWeightRule, WeightCache, DEFAULT_DELAY_US, DEFAULT_THRESHOLD_KB,
};
use qubes_meminfo_writer_ng::weight::Weight;

fn weight(w: f64) -> Weight {
    Weight::from_bits(w.to_bits())
}

fn rule(glob: &str, w: f64) -> SwapWeightRule {
    SwapWeightRule { glob: glob.into(), weight: weight(w) }
}

#[test]
fn test_swap_weight_no_rules_defaults_to_one() {
    assert_eq!(swap_weight("/dev/sda2", &[]), weight(1.0));
}

#[test]
fn test_swap_weight_first_match_wins() {
    let rules = vec![rule("/dev/zram*", 0.5), rule("*", 1.0)];
    assert_eq!(swap_weight("/dev/zram0", &rules), weight(0.5));
    assert_eq!(swap_weight("/dev/sda2", &rules), weight(1.0));
}

#[test]
fn test_swap_weight_zero_ignores_device() {
    let rules = vec![rule("*", 0.0)];
    assert_eq!(swap_weight("/dev/sda2", &rules), weight(0.0));
}

#[test]
fn test_swap_weight_no_match_uses_default() {
    let rules = vec![rule("/dev/zram*", 0.5)];
    assert_eq!(swap_weight("/dev/sda2", &rules), weight(1.0)); // no rule matched
}

#[test]
fn test_swap_weight_earlier_rule_hides_later_one() {
    let rules = vec![rule("*", 0.25), rule("/dev/zram*", 0.5)];
    assert_eq!(swap_weight("/dev/zram0", &rules), weight(0.25));
}

#[test]
fn test_parse_config_defaults_on_missing_file() {
    let (cfg, warnings) = parse_config(Err(LoadError::Unreadable("No such file".into())));
    assert_eq!(cfg.threshold_kb, DEFAULT_THRESHOLD_KB);
    assert_eq!(cfg.delay_us, DEFAULT_DELAY_US);
    assert!(cfg.swap.is_empty());
    assert_eq!(warnings, vec![ConfigWarning::Unreadable("No such file".into())]);
    assert_eq!(
        warnings[0].message("/nonexistent/path/config.toml"),
        "warning: could not read config file /nonexistent/path/config.toml: \
         No such file; using defaults"
    );
}

#[test]
fn test_parse_config_empty_file_uses_defaults() {
    // A file without keys leaves every setting at its default.
    let (cfg, warnings) = parse_config(Ok(Config {
        threshold_kb: default_threshold_kb(),
        delay_us: default_delay_us(),
        swap: Vec::new(),
    }));
    assert_eq!(cfg.threshold_kb, DEFAULT_THRESHOLD_KB);
    assert_eq!(cfg.delay_us, DEFAULT_DELAY_US);
    assert!(warnings.is_empty());
}

#[test]
fn test_parse_config_scalar_values() {
    let (cfg, warnings) =
        parse_config(Ok(Config { threshold_kb: 50000, delay_us: 200000, swap: Vec::new() }));
    assert_eq!(cfg.threshold_kb, 50_000);
    assert_eq!(cfg.delay_us, 200_000);
    assert!(warnings.is_empty());
}

#[test]
fn test_parse_config_swap_weights() {
    let (cfg, warnings) = parse_config(Ok(Config {
        threshold_kb: 30000,
        delay_us: default_delay_us(),
        swap: vec![rule("/dev/zram*", 0.5), rule("*", 1.0)],
    }));
    assert_eq!(cfg.swap.len(), 2);
    assert_eq!(cfg.swap[0].glob, "/dev/zram*");
    assert_eq!(cfg.swap[0].weight, weight(0.5));
    assert_eq!(cfg.swap[1].glob, "*");
    assert_eq!(cfg.swap[1].weight, weight(1.0));
    assert!(warnings.is_empty());
}

#[test]
fn test_parse_config_threshold_zero_uses_default() {
    let (cfg, warnings) =
        parse_config(Ok(Config { threshold_kb: 0, delay_us: 7, swap: Vec::new() }));
    assert_eq!(cfg.threshold_kb, DEFAULT_THRESHOLD_KB);
    assert_eq!(cfg.delay_us, 7);
    assert_eq!(warnings, vec![ConfigWarning::ZeroThreshold]);
    assert_eq!(
        warnings[0].message("/c"),
        "warning: /c: threshold_kb must be a positive integer; using default"
    );
}

#[test]
fn test_parse_config_delay_zero_uses_default() {
    let (cfg, warnings) =
        parse_config(Ok(Config { threshold_kb: 9, delay_us: 0, swap: Vec::new() }));
    assert_eq!(cfg.threshold_kb, 9);
    assert_eq!(cfg.delay_us, DEFAULT_DELAY_US);
    assert_eq!(warnings, vec![ConfigWarning::ZeroDelay]);
    assert_eq!(
        warnings[0].message("/c"),
        "warning: /c: delay_us must be a positive integer; using default"
    );
}

#[test]
fn test_parse_config_bad_syntax_uses_defaults() {
    let (cfg, warnings) = parse_config(Err(LoadError::Unparseable("expected a number".into())));
    assert_eq!(cfg.threshold_kb, DEFAULT_THRESHOLD_KB);
    assert_eq!(cfg.delay_us, DEFAULT_DELAY_US);
    assert_eq!(
        warnings[0].message("/c"),
        "warning: could not parse config file /c: expected a number; using defaults"
    );
}

#[test]
fn test_parse_config_negative_weight_reset_to_one() {
    let (cfg, warnings) = parse_config(Ok(Config {
        threshold_kb: default_threshold_kb(),
        delay_us: default_delay_us(),
        swap: vec![rule("*", -1.0)],
    }));
    assert_eq!(cfg.swap.len(), 1);
    assert_eq!(cfg.swap[0].weight, weight(1.0));
    assert_eq!(
        warnings[0].message("/c"),
        "warning: /c: weight for glob '*' must be a non-negative finite number; using 1.0"
    );
}

#[test]
fn test_parse_config_repairs_each_rule_on_its_own() {
    let (cfg, warnings) = parse_config(Ok(Config {
        threshold_kb: 0,
        delay_us: 0,
        swap: vec![
            rule("a", f64::NAN),
            rule("b", 0.5),
            rule("c", f64::INFINITY),
            rule("d", -0.0),
            rule("e", -0.25),
        ],
    }));
    let weights: Vec<f64> =
        cfg.swap.iter().map(|r| f64::from_bits(r.weight.to_bits())).collect();
    assert_eq!(weights, vec![1.0, 0.5, 1.0, 0.0, 1.0]);
    assert_eq!(
        warnings,
        vec![
            ConfigWarning::ZeroThreshold,
            ConfigWarning::ZeroDelay,
            ConfigWarning::InvalidWeight("a".into()),
            ConfigWarning::InvalidWeight("c".into()),
            ConfigWarning::InvalidWeight("e".into()),
        ]
    );
}

#[test]
fn test_default_config() {
    let cfg = Config::default();
    assert_eq!(cfg.threshold_kb, 30_000);
    assert_eq!(cfg.delay_us, 100_000);
    assert!(cfg.swap.is_empty());
}

#[test]
fn test_weight_cache_returns_correct_weights() {
    let rules = vec![rule("/dev/zram*", 0.5), rule("*", 1.0)];
    let mut cache = WeightCache::new(rules);
    assert_eq!(cache.get("/dev/zram0"), weight(0.5));
    assert_eq!(cache.get("/dev/sda2"), weight(1.0));
}

#[test]
fn test_weight_cache_no_rules_defaults_to_one() {
    let mut cache = WeightCache::new(vec![]);
    assert_eq!(cache.get("/dev/sda2"), weight(1.0));
}

#[test]
fn test_weight_cache_repeated_lookup_is_consistent() {
    // Second lookup for the same path must return the same value (cached).
    let rules = vec![rule("/dev/zram*", 0.25)];
    let mut cache = WeightCache::new(rules);
    let first = cache.get("/dev/zram0");
    let second = cache.get("/dev/zram0"); // cached path
    assert_eq!(first, second);
    assert_eq!(first, weight(0.25));
}

#[test]
fn test_weight_cache_different_paths_independent() {
    let rules = vec![rule("/dev/zram*", 0.5), rule("*", 1.0)];
    let mut cache = WeightCache::new(rules);
    // Interleave lookups to ensure the cache doesn't confuse paths.
    assert_eq!(cache.get("/dev/zram0"), weight(0.5));
    assert_eq!(cache.get("/dev/sda2"), weight(1.0));
    assert_eq!(cache.get("/dev/zram1"), weight(0.5)); // different zram device, same rule
    assert_eq!(cache.get("/dev/sda2"), weight(1.0)); // already cached
}
