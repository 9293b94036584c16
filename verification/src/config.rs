//! Settings: the swap-weight rules, their lookup and cache, and what becomes of a
//! configuration once it has been loaded.
//!
//! Supported keys of the configuration file:
//!   threshold_kb  - u64 > 0  (memory change threshold in kB)
//!   delay_us      - u64 > 0  (sleep interval in microseconds)
//!
//!   [[swap]]      - ordered list of swap-weight rules (first match wins):
//!     glob        - shell glob pattern for the swap device/file path
//!     weight      - non-negative float multiplier for used-kB

use crate::glob::glob_matches;
use crate::weight::Weight;
use vstd::hash_map::StringHashMap;
use vstd::prelude::*;

verus! {

pub const DEFAULT_THRESHOLD_KB: u64 = 30_000;

pub const DEFAULT_DELAY_US: u64 = 100_000;

/// A swap-weight rule: the first matching rule for a device/file is applied.
#[derive(Debug)]
pub struct SwapWeightRule {
    /// Shell glob pattern matched against the swap device/file path.
    pub glob: String,
    /// Multiplier applied to the used-kB value.
    /// Zero = ignore this swap entirely, one = count in full.
    pub weight: Weight,
}

impl Clone for SwapWeightRule {
    fn clone(&self) -> (r: Self)
        ensures
            r == *self,
    {
        SwapWeightRule { glob: self.glob.clone(), weight: self.weight }
    }
}

impl SwapWeightRule {
    /// Whether the rule applies to the swap area called `filename`.
    pub open spec fn applies_to(self, filename: Seq<char>) -> bool {
        crate::glob::pattern_matches(self.glob@, filename)
    }
}

/// The weight of the first rule that applies to `filename`, or one if none does.
pub open spec fn rule_weight(filename: Seq<char>, rules: Seq<SwapWeightRule>) -> Weight
    decreases rules.len(),
{
    if rules.len() == 0 {
        crate::weight::one_weight()
    } else if rules[0].applies_to(filename) {
        rules[0].weight
    } else {
        rule_weight(filename, rules.skip(1))
    }
}

/// The first rule that applies decides, whatever comes after it.
pub proof fn first_matching_rule_wins(filename: Seq<char>, rules: Seq<SwapWeightRule>, i: int)
    requires
        0 <= i < rules.len(),
        crate::glob::pattern_matches(rules[i].glob@, filename),
        forall|j: int|
            0 <= j < i ==> !crate::glob::pattern_matches((#[trigger] rules[j]).glob@, filename),
    ensures
        rule_weight(filename, rules) == rules[i].weight,
    decreases i,
{
    if i > 0 {
        assert(!crate::glob::pattern_matches(rules[0].glob@, filename));
        let rest = rules.skip(1);
        assert forall|j: int| 0 <= j < i - 1 implies !crate::glob::pattern_matches(
            (#[trigger] rest[j]).glob@,
            filename,
        ) by {
            assert(rest[j] == rules[j + 1]);
        }
        assert(rest[i - 1] == rules[i]);
        first_matching_rule_wins(filename, rest, i - 1);
    }
}

/// A swap area to which no rule applies counts in full.
pub proof fn unmatched_area_has_full_weight(filename: Seq<char>, rules: Seq<SwapWeightRule>)
    requires
        forall|j: int|
            0 <= j < rules.len() ==> !crate::glob::pattern_matches(
                (#[trigger] rules[j]).glob@,
                filename,
            ),
    ensures
        rule_weight(filename, rules) == crate::weight::one_weight(),
        rule_weight(filename, rules).bits == 0x3ff0_0000_0000_0000,
    decreases rules.len(),
{
    if rules.len() > 0 {
        assert(!crate::glob::pattern_matches(rules[0].glob@, filename));
        let rest = rules.skip(1);
        assert forall|j: int| 0 <= j < rest.len() implies !crate::glob::pattern_matches(
            (#[trigger] rest[j]).glob@,
            filename,
        ) by {
            assert(rest[j] == rules[j + 1]);
        }
        unmatched_area_has_full_weight(filename, rest);
    }
}

/// A rule whose glob holds no wildcard decides for the path that equals the glob, and for
/// no other: the rules after it are asked as if it were not there.
pub proof fn literal_rule_decides_for_its_own_path(
    filename: Seq<char>,
    rule: SwapWeightRule,
    rest: Seq<SwapWeightRule>,
)
    requires
        forall|i: int|
            0 <= i < rule.glob@.len() ==> #[trigger] rule.glob@[i] != '*' && rule.glob@[i] != '?',
    ensures
        filename == rule.glob@ ==> rule_weight(filename, seq![rule] + rest) == rule.weight,
        filename != rule.glob@ ==> rule_weight(filename, seq![rule] + rest) == rule_weight(
            filename,
            rest,
        ),
        rule_weight(filename, Seq::<SwapWeightRule>::empty()).bits == 0x3ff0_0000_0000_0000,
{
    crate::glob::literal_matches_itself_only(rule.glob@, filename);
    assert((seq![rule] + rest)[0] == rule);
    assert((seq![rule] + rest).skip(1) == rest);
}

/// A rule whose glob is a literal and a star decides for the paths that start with the
/// literal, and for no other.
pub proof fn prefix_rule_decides_for_paths_with_its_prefix(
    filename: Seq<char>,
    prefix: Seq<char>,
    rule: SwapWeightRule,
    rest: Seq<SwapWeightRule>,
)
    requires
        forall|i: int|
            0 <= i < prefix.len() ==> #[trigger] prefix[i] != '*' && prefix[i] != '?',
        rule.glob@ == prefix + seq!['*'],
    ensures
        rule_weight(filename, seq![rule] + rest) == if prefix.len() <= filename.len()
            && filename.take(prefix.len() as int) == prefix {
            rule.weight
        } else {
            rule_weight(filename, rest)
        },
{
    crate::glob::literal_then_star_matches_prefix(prefix, filename);
    assert((seq![rule] + rest)[0] == rule);
    assert((seq![rule] + rest).skip(1) == rest);
    if prefix.len() <= filename.len() {
        assert(filename.take(prefix.len() as int) == prefix <==> prefix.is_prefix_of(filename));
    }
}

/// Rules with usable weights give every swap area a usable weight.
pub proof fn looked_up_weight_is_valid(filename: Seq<char>, rules: Seq<SwapWeightRule>)
    requires
        forall|j: int| 0 <= j < rules.len() ==> (#[trigger] rules[j]).weight.valid(),
    ensures
        rule_weight(filename, rules).valid(),
    decreases rules.len(),
{
    if rules.len() > 0 {
        assert(rules[0].weight.valid());
        let rest = rules.skip(1);
        assert forall|j: int| 0 <= j < rest.len() implies (#[trigger] rest[j]).weight.valid() by {
            assert(rest[j] == rules[j + 1]);
        }
        looked_up_weight_is_valid(filename, rest);
    }
}

/// Rules with weights of at most one give every swap area a weight of at most one.
pub proof fn looked_up_weight_is_at_most_one(filename: Seq<char>, rules: Seq<SwapWeightRule>)
    requires
        forall|j: int| 0 <= j < rules.len() ==> (#[trigger] rules[j]).weight.at_most_one(),
    ensures
        rule_weight(filename, rules).at_most_one(),
    decreases rules.len(),
{
    crate::weight::one_is_valid();
    if rules.len() > 0 {
        assert(rules[0].weight.at_most_one());
        let rest = rules.skip(1);
        assert forall|j: int| 0 <= j < rest.len() implies (
        #[trigger] rest[j]).weight.at_most_one() by {
            assert(rest[j] == rules[j + 1]);
        }
        looked_up_weight_is_at_most_one(filename, rest);
    }
}

/// Look up the weight for a swap filename using the configured rules.
/// Returns one if no rule matches (full weight by default).
pub fn swap_weight(filename: &str, rules: &[SwapWeightRule]) -> (r: Weight)
    ensures
        r == rule_weight(filename@, rules@),
{
    let mut i: usize = 0;
    assert(rules@.skip(0) == rules@);
    while i < rules.len()
        invariant
            i <= rules.len(),
            rule_weight(filename@, rules@.skip(i as int)) == rule_weight(filename@, rules@),
        decreases rules.len() - i,
    {
        assert(rules@.skip(i as int)[0] == rules@[i as int]);
        assert(rules@.skip(i as int).skip(1) == rules@.skip(i + 1));
        if glob_matches(rules[i].glob.as_str(), filename) {
            return rules[i].weight;
        }
        i += 1;
    }
    Weight::one()
}

/// Lazily-populated cache that maps swap device paths to their configured weights.
///
/// The swap rules (glob patterns) are static after startup. Swap device paths
/// rarely change after boot. By caching the first glob-match result for each
/// path, glob evaluation is amortised to **once per unique device path** over
/// the process lifetime rather than once per sampling tick.
pub struct WeightCache {
    rules: Vec<SwapWeightRule>,
    cache: StringHashMap<Weight>,
}

impl WeightCache {
    /// The rules behind the cache.
    pub closed spec fn rules(self) -> Seq<SwapWeightRule> {
        self.rules@
    }

    /// The weights found so far, by path.
    pub closed spec fn cached(self) -> Map<Seq<char>, Weight> {
        self.cache@
    }

    /// Every cached weight is the one that the rules give.
    pub open spec fn wf(self) -> bool {
        forall|path: Seq<char>| #[trigger]
            self.cached().contains_key(path) ==> self.cached()[path] == rule_weight(
                path,
                self.rules(),
            )
    }

    /// Create a new cache backed by `rules`.
    pub fn new(rules: Vec<SwapWeightRule>) -> (r: Self)
        ensures
            r.wf(),
            r.rules() == rules@,
            r.cached() == Map::<Seq<char>, Weight>::empty(),
    {
        WeightCache { rules, cache: StringHashMap::new() }
    }

    /// Return the weight for `filename`.
    ///
    /// On the first call for any given path the glob rules are evaluated and
    /// the result is stored; subsequent calls for the same path return the
    /// cached value without touching the rules at all.
    pub fn get(&mut self, filename: &str) -> (r: Weight)
        requires
            old(self).wf(),
        ensures
            r == rule_weight(filename@, old(self).rules()),
            final(self).wf(),
            final(self).rules() == old(self).rules(),
            final(self).cached() == old(self).cached().insert(filename@, r),
    {
        if let Some(w) = self.cache.get(filename) {
            let w: Weight = *w;
            assert(self.cached() =~= self.cached().insert(filename@, w));
            return w;
        }
        let w = swap_weight(filename, self.rules.as_slice());
        self.cache.insert(filename.to_owned(), w);
        proof {
            let before = old(self).cached();
            assert forall|path: Seq<char>| #[trigger]
                self.cached().contains_key(path) implies self.cached()[path] == rule_weight(
                path,
                self.rules(),
            ) by {
                if path != filename@ {
                    assert(before.contains_key(path));
                }
            }
        }
        w
    }
}

/// A path that has been looked up once keeps its weight, whatever is looked up later.
pub proof fn cached_weight_never_changes(
    before: WeightCache,
    after: WeightCache,
    path: Seq<char>,
    looked_up: Seq<char>,
)
    requires
        before.wf(),
        before.cached().contains_key(path),
        after.cached() == before.cached().insert(
            looked_up,
            rule_weight(looked_up, before.rules()),
        ),
    ensures
        after.cached().contains_key(path),
        after.cached()[path] == before.cached()[path],
{
}

/// Threshold where the configuration names none.
pub fn default_threshold_kb() -> (r: u64)
    ensures
        r == DEFAULT_THRESHOLD_KB,
{
    DEFAULT_THRESHOLD_KB
}

/// Interval where the configuration names none.
pub fn default_delay_us() -> (r: u64)
    ensures
        r == DEFAULT_DELAY_US,
{
    DEFAULT_DELAY_US
}

/// Settings loaded from the configuration file.
#[derive(Debug)]
pub struct Config {
    /// Minimum memory change (in kB) that triggers a xenstore write.
    pub threshold_kb: u64,
    /// Sleep interval between updates in microseconds.
    pub delay_us: u64,
    /// Ordered list of swap-weight rules (first match wins).
    pub swap: Vec<SwapWeightRule>,
}

impl Config {
    /// Whether the settings make sense: a positive threshold and interval, and usable
    /// weights.
    pub open spec fn valid(self) -> bool {
        &&& self.threshold_kb > 0
        &&& self.delay_us > 0
        &&& forall|i: int| 0 <= i < self.swap@.len() ==> (#[trigger] self.swap@[i]).weight.valid()
    }

    /// The built-in settings.
    pub open spec fn is_default(self) -> bool {
        &&& self.threshold_kb == DEFAULT_THRESHOLD_KB
        &&& self.delay_us == DEFAULT_DELAY_US
        &&& self.swap@.len() == 0
    }
}

impl Default for Config {
    fn default() -> (r: Self)
        ensures
            r.is_default(),
            r.threshold_kb == 30_000,
            r.delay_us == 100_000,
            r.swap@.len() == 0,
    {
        Config {
            threshold_kb: DEFAULT_THRESHOLD_KB,
            delay_us: DEFAULT_DELAY_US,
            swap: Vec::new(),
        }
    }
}

/// Why no configuration could be loaded, with the reason in words.
#[derive(Debug)]
pub enum LoadError {
    /// The file could not be read.
    Unreadable(String),
    /// The file could be read but holds no valid configuration.
    Unparseable(String),
}

/// Something in the configuration that the built-in settings had to stand in for.
#[derive(Debug, PartialEq)]
pub enum ConfigWarning {
    /// The file could not be read, for the given reason.
    Unreadable(String),
    /// The file could not be parsed, for the given reason.
    Unparseable(String),
    /// The threshold is zero.
    ZeroThreshold,
    /// The interval is zero.
    ZeroDelay,
    /// The weight of the rule with the given glob is negative or not finite.
    InvalidWeight(String),
}

/// A [`ConfigWarning`] with its text as a sequence of characters.
pub enum WarningView {
    Unreadable(Seq<char>),
    Unparseable(Seq<char>),
    ZeroThreshold,
    ZeroDelay,
    InvalidWeight(Seq<char>),
}

impl View for ConfigWarning {
    type V = WarningView;

    open spec fn view(&self) -> WarningView {
        match self {
            ConfigWarning::Unreadable(reason) => WarningView::Unreadable(reason@),
            ConfigWarning::Unparseable(reason) => WarningView::Unparseable(reason@),
            ConfigWarning::ZeroThreshold => WarningView::ZeroThreshold,
            ConfigWarning::ZeroDelay => WarningView::ZeroDelay,
            ConfigWarning::InvalidWeight(glob) => WarningView::InvalidWeight(glob@),
        }
    }
}

/// The warnings of a list, in order.
pub open spec fn warning_views(warnings: Seq<ConfigWarning>) -> Seq<WarningView> {
    warnings.map_values(|w: ConfigWarning| w@)
}

/// One warning for each rule whose weight is unusable, in order.
pub open spec fn weight_warnings(rules: Seq<SwapWeightRule>) -> Seq<WarningView>
    decreases rules.len(),
{
    if rules.len() == 0 {
        Seq::empty()
    } else {
        let before = weight_warnings(rules.drop_last());
        if rules.last().weight.valid() {
            before
        } else {
            before.push(WarningView::InvalidWeight(rules.last().glob@))
        }
    }
}

/// The warnings that a loaded configuration gives rise to.
pub open spec fn config_warnings(cfg: Config) -> Seq<WarningView> {
    let threshold = if cfg.threshold_kb == 0 {
        seq![WarningView::ZeroThreshold]
    } else {
        Seq::empty()
    };
    let delay = if cfg.delay_us == 0 {
        seq![WarningView::ZeroDelay]
    } else {
        Seq::empty()
    };
    threshold + delay + weight_warnings(cfg.swap@)
}

/// Whether `after` is the rule `before` with an unusable weight replaced by one.
pub open spec fn rule_repaired(before: SwapWeightRule, after: SwapWeightRule) -> bool {
    &&& after.glob@ == before.glob@
    &&& after.weight == if before.weight.valid() {
        before.weight
    } else {
        crate::weight::one_weight()
    }
}

/// Whether `after` is `before` with each unusable value replaced by its default.
pub open spec fn config_repaired(before: Config, after: Config) -> bool {
    &&& after.threshold_kb == if before.threshold_kb == 0 {
        DEFAULT_THRESHOLD_KB
    } else {
        before.threshold_kb
    }
    &&& after.delay_us == if before.delay_us == 0 {
        DEFAULT_DELAY_US
    } else {
        before.delay_us
    }
    &&& after.swap@.len() == before.swap@.len()
    &&& forall|i: int|
        0 <= i < before.swap@.len() ==> rule_repaired(
            #[trigger] before.swap@[i],
            after.swap@[i],
        )
}

proof fn lemma_no_weight_warnings(rules: Seq<SwapWeightRule>)
    requires
        forall|i: int| 0 <= i < rules.len() ==> (#[trigger] rules[i]).weight.valid(),
    ensures
        weight_warnings(rules) == Seq::<WarningView>::empty(),
    decreases rules.len(),
{
    if rules.len() > 0 {
        let before = rules.drop_last();
        assert forall|i: int| 0 <= i < before.len() implies (
        #[trigger] before[i]).weight.valid() by {
            assert(before[i] == rules[i]);
        }
        assert(rules[rules.len() - 1].weight.valid());
        lemma_no_weight_warnings(before);
    }
}

/// Settings that make sense are kept as they are, without a warning.
pub proof fn valid_config_is_kept(before: Config, after: Config)
    requires
        before.valid(),
        config_repaired(before, after),
    ensures
        after.threshold_kb == before.threshold_kb,
        after.delay_us == before.delay_us,
        after.swap@.len() == before.swap@.len(),
        forall|i: int|
            0 <= i < before.swap@.len() ==> (#[trigger] before.swap@[i]).glob@
                == after.swap@[i].glob@ && before.swap@[i].weight == after.swap@[i].weight,
        config_warnings(before) == Seq::<WarningView>::empty(),
{
    lemma_no_weight_warnings(before.swap@);
    assert forall|i: int| 0 <= i < before.swap@.len() implies (#[trigger] before.swap@[i]).glob@
        == after.swap@[i].glob@ && before.swap@[i].weight == after.swap@[i].weight by {
        assert(rule_repaired(before.swap@[i], after.swap@[i]));
    }
}

/// A warning in words; `path` is the configuration file.
pub open spec fn warning_text(warning: WarningView, path: Seq<char>) -> Seq<char> {
    match warning {
        WarningView::Unreadable(reason) => "warning: could not read config file "@ + path + ": "@
            + reason + "; using defaults"@,
        WarningView::Unparseable(reason) => "warning: could not parse config file "@ + path + ": "@
            + reason + "; using defaults"@,
        WarningView::ZeroThreshold => "warning: "@ + path
            + ": threshold_kb must be a positive integer; using default"@,
        WarningView::ZeroDelay => "warning: "@ + path
            + ": delay_us must be a positive integer; using default"@,
        WarningView::InvalidWeight(glob) => "warning: "@ + path + ": weight for glob '"@ + glob
            + "' must be a non-negative finite number; using 1.0"@,
    }
}

impl ConfigWarning {
    /// The warning in words; `path` is the configuration file.
    pub fn message(&self, path: &str) -> (r: String)
        ensures
            r@ == warning_text(self@, path@),
    {
        let mut text = String::new();
        match self {
            ConfigWarning::Unreadable(reason) => {
                text.append("warning: could not read config file ");
                text.append(path);
                text.append(": ");
                text.append(reason.as_str());
                text.append("; using defaults");
            },
            ConfigWarning::Unparseable(reason) => {
                text.append("warning: could not parse config file ");
                text.append(path);
                text.append(": ");
                text.append(reason.as_str());
                text.append("; using defaults");
            },
            ConfigWarning::ZeroThreshold => {
                text.append("warning: ");
                text.append(path);
                text.append(": threshold_kb must be a positive integer; using default");
            },
            ConfigWarning::ZeroDelay => {
                text.append("warning: ");
                text.append(path);
                text.append(": delay_us must be a positive integer; using default");
            },
            ConfigWarning::InvalidWeight(glob) => {
                text.append("warning: ");
                text.append(path);
                text.append(": weight for glob '");
                text.append(glob.as_str());
                text.append("' must be a non-negative finite number; using 1.0");
            },
        }
        assert(text@ =~= warning_text(self@, path@));
        text
    }
}

/// Settle the settings from what loading the configuration file gave.
///
/// Returns built-in defaults when the file could not be read or parsed. Invalid field
/// values (e.g. a threshold of zero) also fall back to their defaults. Each fallback
/// gives a warning.
pub fn parse_config(loaded: Result<Config, LoadError>) -> (r: (Config, Vec<ConfigWarning>))
    ensures
        r.0.valid(),
        r.0.threshold_kb > 0,
        r.0.delay_us > 0,
        loaded matches Ok(cfg) ==> {
            &&& cfg.threshold_kb != 0 ==> r.0.threshold_kb == cfg.threshold_kb
            &&& cfg.threshold_kb == 0 ==> r.0.threshold_kb == 30_000
            &&& cfg.delay_us != 0 ==> r.0.delay_us == cfg.delay_us
            &&& cfg.delay_us == 0 ==> r.0.delay_us == 100_000
            &&& r.0.swap@.len() == cfg.swap@.len()
        },
        loaded is Err ==> r.0.threshold_kb == 30_000 && r.0.delay_us == 100_000 && r.0.swap@.len()
            == 0 && r.1@.len() == 1,
        match loaded {
            Ok(cfg) => config_repaired(cfg, r.0) && warning_views(r.1@) == config_warnings(cfg),
            Err(LoadError::Unreadable(reason)) => r.0.is_default() && warning_views(r.1@) == seq![
                WarningView::Unreadable(reason@),
            ],
            Err(LoadError::Unparseable(reason)) => r.0.is_default() && warning_views(r.1@) == seq![
                WarningView::Unparseable(reason@),
            ],
        },
{
    let mut warnings: Vec<ConfigWarning> = Vec::new();
    let mut cfg = match loaded {
        Ok(cfg) => cfg,
        Err(LoadError::Unreadable(reason)) => {
            let ghost why = reason@;
            warnings.push(ConfigWarning::Unreadable(reason));
            assert(warning_views(warnings@) =~= seq![WarningView::Unreadable(why)]);
            return (Config::default(), warnings);
        },
        Err(LoadError::Unparseable(reason)) => {
            let ghost why = reason@;
            warnings.push(ConfigWarning::Unparseable(reason));
            assert(warning_views(warnings@) =~= seq![WarningView::Unparseable(why)]);
            return (Config::default(), warnings);
        },
    };
    let ghost before = cfg;
    // Values that are syntactically valid but make no sense for this program.
    if cfg.threshold_kb == 0 {
        warnings.push(ConfigWarning::ZeroThreshold);
        cfg.threshold_kb = DEFAULT_THRESHOLD_KB;
    }
    if cfg.delay_us == 0 {
        warnings.push(ConfigWarning::ZeroDelay);
        cfg.delay_us = DEFAULT_DELAY_US;
    }
    let ghost scalars = warning_views(warnings@);
    let ghost rules = before.swap@;
    proof {
        assert(scalars + weight_warnings(rules) == config_warnings(before));
        assert(rules.take(0) == Seq::<SwapWeightRule>::empty());
        assert(scalars + Seq::<WarningView>::empty() == scalars);
    }
    proof {
        crate::weight::one_is_valid();
    }
    let mut i: usize = 0;
    while i < cfg.swap.len()
        invariant
            i <= cfg.swap@.len() == rules.len(),
            crate::weight::one_weight().valid(),
            cfg.threshold_kb > 0,
            cfg.delay_us > 0,
            cfg.threshold_kb == (if before.threshold_kb == 0 {
                DEFAULT_THRESHOLD_KB
            } else {
                before.threshold_kb
            }),
            cfg.delay_us == (if before.delay_us == 0 {
                DEFAULT_DELAY_US
            } else {
                before.delay_us
            }),
            forall|j: int| 0 <= j < i ==> rule_repaired(#[trigger] rules[j], cfg.swap@[j]),
            forall|j: int| i <= j < rules.len() ==> #[trigger] rules[j] == cfg.swap@[j],
            warning_views(warnings@) == scalars + weight_warnings(rules.take(i as int)),
        decreases cfg.swap@.len() - i,
    {
        let ghost done = rules.take(i as int);
        let ghost next = rules.take(i + 1);
        let ghost earlier = warnings@;
        proof {
            assert(next.drop_last() == done);
            assert(next.last() == rules[i as int]);
            assert(rules[i as int] == cfg.swap@[i as int]);
        }
        if !cfg.swap[i].weight.is_valid() {
            warnings.push(ConfigWarning::InvalidWeight(cfg.swap[i].glob.clone()));
            cfg.swap[i].weight = Weight::one();
            proof {
                let w = WarningView::InvalidWeight(rules[i as int].glob@);
                assert(warning_views(warnings@) =~= warning_views(earlier).push(w));
                assert(scalars + weight_warnings(done).push(w) =~= (scalars + weight_warnings(
                    done,
                )).push(w));
            }
        }
        assert(rule_repaired(rules[i as int], cfg.swap@[i as int]));
        i += 1;
    }
    proof {
        assert(rules.take(rules.len() as int) == rules);
        assert forall|j: int| 0 <= j < cfg.swap@.len() implies (
        #[trigger] cfg.swap@[j]).weight.valid() by {
            assert(rule_repaired(rules[j], cfg.swap@[j]));
        }
    }
    (cfg, warnings)
}

/// What settling does to the numbers: a threshold or interval that is not zero is kept,
/// whatever it is, and one that is zero becomes its default. The rules stay in number and
/// order with their globs. A weight is kept if its bit pattern is that of a finite number
/// without a sign or of minus zero; any other becomes one.
pub proof fn settling_keeps_every_usable_number(before: Config, after: Config, i: int)
    requires
        config_repaired(before, after),
    ensures
        before.threshold_kb != 0 ==> after.threshold_kb == before.threshold_kb,
        before.threshold_kb == 0 ==> after.threshold_kb == 30_000,
        before.delay_us != 0 ==> after.delay_us == before.delay_us,
        before.delay_us == 0 ==> after.delay_us == 100_000,
        after.swap@.len() == before.swap@.len(),
        0 <= i < before.swap@.len() ==> after.swap@[i].glob@ == before.swap@[i].glob@,
        0 <= i < before.swap@.len() && (before.swap@[i].weight.bits < 0x7ff0_0000_0000_0000
            || before.swap@[i].weight.bits == 0x8000_0000_0000_0000)
            ==> after.swap@[i].weight.bits == before.swap@[i].weight.bits,
        0 <= i < before.swap@.len() && before.swap@[i].weight.bits >= 0x7ff0_0000_0000_0000
            && before.swap@[i].weight.bits != 0x8000_0000_0000_0000 ==> after.swap@[i].weight.bits
            == 0x3ff0_0000_0000_0000,
{
    if 0 <= i < before.swap@.len() {
        assert(rule_repaired(before.swap@[i], after.swap@[i]));
        crate::weight::usable_bit_patterns(before.swap@[i].weight);
    }
}

/// Settings make sense exactly if threshold and interval are not zero and every weight has
/// the bit pattern of a finite number without a sign, or of minus zero.
pub proof fn validity_in_numbers(cfg: Config)
    ensures
        cfg.valid() <==> cfg.threshold_kb != 0 && cfg.delay_us != 0 && forall|i: int|
            0 <= i < cfg.swap@.len() ==> (#[trigger] cfg.swap@[i]).weight.bits
                < 0x7ff0_0000_0000_0000 || cfg.swap@[i].weight.bits == 0x8000_0000_0000_0000,
        cfg.is_default() <==> cfg.threshold_kb == 30_000 && cfg.delay_us == 100_000
            && cfg.swap@.len() == 0,
{
    assert forall|i: int| 0 <= i < cfg.swap@.len() implies ((
    #[trigger] cfg.swap@[i]).weight.valid() <==> cfg.swap@[i].weight.bits < 0x7ff0_0000_0000_0000
        || cfg.swap@[i].weight.bits == 0x8000_0000_0000_0000) by {
        crate::weight::usable_bit_patterns(cfg.swap@[i].weight);
    }
}

/// A further rule adds a warning with its glob if its weight is replaced, and none
/// otherwise; without rules there is none.
pub proof fn each_replaced_weight_has_its_warning(
    rules: Seq<SwapWeightRule>,
    rule: SwapWeightRule,
)
    ensures
        weight_warnings(Seq::<SwapWeightRule>::empty()) == Seq::<WarningView>::empty(),
        weight_warnings(rules.push(rule)) == if rule.weight.bits < 0x7ff0_0000_0000_0000
            || rule.weight.bits == 0x8000_0000_0000_0000 {
            weight_warnings(rules)
        } else {
            weight_warnings(rules).push(WarningView::InvalidWeight(rule.glob@))
        },
{
    crate::weight::usable_bit_patterns(rule.weight);
    assert(rules.push(rule).drop_last() == rules);
}

/// The warnings about a loaded configuration: one for a threshold of zero, then one for an
/// interval of zero, then those about the weights.
pub proof fn warnings_come_in_order(cfg: Config)
    ensures
        cfg.threshold_kb != 0 && cfg.delay_us != 0 ==> config_warnings(cfg) == weight_warnings(
            cfg.swap@,
        ),
        cfg.threshold_kb == 0 && cfg.delay_us != 0 ==> config_warnings(cfg) == seq![
            WarningView::ZeroThreshold,
        ] + weight_warnings(cfg.swap@),
        cfg.threshold_kb != 0 && cfg.delay_us == 0 ==> config_warnings(cfg) == seq![
            WarningView::ZeroDelay,
        ] + weight_warnings(cfg.swap@),
        cfg.threshold_kb == 0 && cfg.delay_us == 0 ==> config_warnings(cfg) == seq![
            WarningView::ZeroThreshold,
            WarningView::ZeroDelay,
        ] + weight_warnings(cfg.swap@),
{
}

/// The view of a warning has its kind and its text, and a list of views has them in order.
pub proof fn warning_views_hold_kind_and_text(warnings: Seq<ConfigWarning>, i: int)
    ensures
        warning_views(warnings).len() == warnings.len(),
        0 <= i < warnings.len() ==> match warnings[i] {
            ConfigWarning::Unreadable(reason) => warning_views(warnings)[i]
                == WarningView::Unreadable(reason@),
            ConfigWarning::Unparseable(reason) => warning_views(warnings)[i]
                == WarningView::Unparseable(reason@),
            ConfigWarning::ZeroThreshold => warning_views(warnings)[i]
                == WarningView::ZeroThreshold,
            ConfigWarning::ZeroDelay => warning_views(warnings)[i] == WarningView::ZeroDelay,
            ConfigWarning::InvalidWeight(glob) => warning_views(warnings)[i]
                == WarningView::InvalidWeight(glob@),
        },
{
}

/// A warning names the configuration file, and the reason or the glob, in full: what
/// stands before, between and after them is the same whatever they are.
pub proof fn warning_texts_hold_their_parts_in_full(path: Seq<char>, part: Seq<char>)
    ensures
        warning_text(WarningView::Unreadable(part), path)
            =~= "warning: could not read config file "@ + path + ": "@ + part
            + "; using defaults"@,
        warning_text(WarningView::Unparseable(part), path)
            =~= "warning: could not parse config file "@ + path + ": "@ + part
            + "; using defaults"@,
        warning_text(WarningView::ZeroThreshold, path) =~= "warning: "@ + path
            + ": threshold_kb must be a positive integer; using default"@,
        warning_text(WarningView::ZeroDelay, path) =~= "warning: "@ + path
            + ": delay_us must be a positive integer; using default"@,
        warning_text(WarningView::InvalidWeight(part), path) =~= "warning: "@ + path
            + ": weight for glob '"@ + part
            + "' must be a non-negative finite number; using 1.0"@,
{
}

} // verus!
