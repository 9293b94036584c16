//! The sampling loop's decisions: what a reading of the machine's memory means, whether
//! it is published, and what is said about it.

use crate::cli::OutputMode;
use crate::config::Config;
use crate::mem::{checked_should_update, checked_used_memory};
use crate::sum::checked_sum;
use crate::swap::{apply_weights, entry_weights, SwapEntry};
use crate::text::to_decimal;
use crate::weight::Weight;
use vstd::prelude::*;

verus! {

/// Xenstore key under which used memory is published.
pub const XENSTORE_MEMINFO_PATH: &'static str = "memory/meminfo";

/// What one look at the machine gave.
#[derive(Debug)]
pub struct Reading {
    /// Installed memory in bytes.
    pub total_bytes: u64,
    /// Available memory in bytes.
    pub available_bytes: u64,
    /// The Xen balloon driver's allocation in kB.
    pub xen_current_kb: Option<u64>,
    /// The active swap areas.
    pub swap_entries: Vec<SwapEntry>,
}

impl Reading {
    pub open spec fn total_kb(self) -> u64 {
        self.total_bytes / 1024
    }

    pub open spec fn available_kb(self) -> u64 {
        self.available_bytes / 1024
    }

    /// The swap areas, with names as sequences of characters.
    pub open spec fn swap(self) -> Seq<crate::swap::SwapEntryView> {
        crate::swap::entry_views(self.swap_entries@)
    }

    /// The weighted sum of used swap.
    pub open spec fn swap_used(self, config: Config) -> int {
        crate::sum::sum(crate::swap::weighted_amounts(self.swap(), config.swap@))
    }

    /// The memory in use, where the weighted sum of used swap fits in 64 bits.
    pub open spec fn used(self, config: Config) -> int {
        crate::mem::used_memory(
            self.total_kb(),
            self.available_kb(),
            self.xen_current_kb,
            self.swap_used(config) as u64,
        )
    }

    /// Whether the memory in use fits in 64 bits.
    pub open spec fn fits(self, config: Config) -> bool {
        self.swap_used(config) <= u64::MAX && self.used(config) <= u64::MAX
    }
}

/// What a reading comes to.
#[derive(Debug)]
pub struct Report {
    /// Installed memory in kB.
    pub total_memory_kb: u64,
    /// Available memory in kB.
    pub available_memory_kb: u64,
    /// The weight of each swap area.
    pub entry_weights: Vec<Weight>,
    /// What each swap area counts for.
    pub entry_used_weighted: Vec<u64>,
    /// Memory in use in kB.
    pub used_mem_kb: u64,
    /// Whether the value is worth publishing.
    pub will_write: bool,
}

/// What happens after an iteration.
#[derive(Debug, Clone, Copy, PartialEq, Eq, Structural)]
pub enum Next {
    /// The program ends.
    Exit,
    /// The next iteration follows after this many microseconds.
    Sleep(u64),
}

/// What one iteration decides.
#[derive(Debug)]
pub struct Step {
    pub report: Report,
    /// The value to write to [`XENSTORE_MEMINFO_PATH`], if any.
    pub write: Option<String>,
    pub next: Next,
}

/// The state of the sampling loop.
#[derive(Debug)]
pub struct Reporter {
    pub config: Config,
    pub output_mode: OutputMode,
    /// Whether the loop ends after one iteration.
    pub once: bool,
    /// The last published value, or zero if there is none.
    pub prev_used_mem_kb: u64,
}

impl Reporter {
    /// Whether the value of a reading is published.
    pub open spec fn publishes(self, reading: Reading) -> bool {
        crate::mem::update_due(
            reading.used(self.config) as u64,
            self.prev_used_mem_kb,
            self.config.threshold_kb,
            reading.total_kb(),
        )
    }

    /// Whether everything that the iteration computes fits in 64 bits.
    pub open spec fn step_fits(self, reading: Reading) -> bool {
        &&& reading.fits(self.config)
        &&& crate::mem::pressure_consulted(
            reading.used(self.config) as u64,
            self.prev_used_mem_kb,
            self.config.threshold_kb,
        ) ==> crate::mem::pressure_fits(reading.used(self.config) as u64, reading.total_kb())
    }

    /// The state after an iteration on `reading`.
    pub open spec fn after(self, reading: Reading) -> Reporter {
        Reporter {
            prev_used_mem_kb: if self.publishes(reading) {
                reading.used(self.config) as u64
            } else {
                self.prev_used_mem_kb
            },
            ..self
        }
    }

    /// Start with nothing published.
    pub fn new(config: Config, output_mode: OutputMode, once: bool) -> (r: Self)
        ensures
            r == (Reporter { config, output_mode, once, prev_used_mem_kb: 0 }),
    {
        Reporter { config, output_mode, once, prev_used_mem_kb: 0 }
    }

    /// One iteration of the sampling loop: what `reading` comes to, what is written to
    /// xenstore, and what follows. `None`, with nothing changed, where an amount does not
    /// fit in 64 bits.
    pub fn step(&mut self, reading: &Reading) -> (r: Option<Step>)
        ensures
            r is Some <==> old(self).step_fits(*reading),
            r is None ==> *final(self) == *old(self),
            r matches Some(step) ==> {
                &&& *final(self) == old(self).after(*reading)
                &&& report_of(*old(self), *reading, step.report)
                &&& step.write is Some <==> old(self).publishes(*reading) && old(
                    self,
                ).output_mode.writes()
                &&& step.write matches Some(data) ==> data@ == crate::text::decimal(
                    reading.used(old(self).config) as nat,
                )
                &&& step.next == if old(self).once {
                    Next::Exit
                } else {
                    Next::Sleep(old(self).config.delay_us)
                }
                &&& step.report.total_memory_kb == reading.total_bytes as int / 1024
                &&& step.report.available_memory_kb == reading.available_bytes as int / 1024
                &&& step.write is Some <==> step.report.will_write && !(old(
                    self,
                ).output_mode is Print)
                &&& step.write matches Some(data) ==> data@ == crate::text::decimal(
                    step.report.used_mem_kb as nat,
                )
                &&& final(self).prev_used_mem_kb == if step.report.will_write {
                    step.report.used_mem_kb
                } else {
                    old(self).prev_used_mem_kb
                }
                &&& final(self).config == old(self).config
                &&& final(self).output_mode == old(self).output_mode
                &&& final(self).once == old(self).once
            },
    {
        let total_memory_kb: u64 = reading.total_bytes / 1024;
        let available_memory_kb: u64 = reading.available_bytes / 1024;
        let weights = entry_weights(reading.swap_entries.as_slice(), self.config.swap.as_slice());
        let amounts = apply_weights(reading.swap_entries.as_slice(), weights.as_slice());
        assert(amounts@ =~= crate::swap::weighted_amounts(reading.swap(), self.config.swap@));
        proof {
            crate::sum::sum_of_nothing_is_zero(amounts@);
        }
        let swap_used_kb: u64 = match checked_sum(amounts.as_slice()) {
            Some(kb) => kb,
            None => {
                return None;
            },
        };
        let used_mem_kb: u64 = match checked_used_memory(
            total_memory_kb,
            available_memory_kb,
            reading.xen_current_kb,
            swap_used_kb,
        ) {
            Some(kb) => kb,
            None => {
                return None;
            },
        };
        let will_write: bool = match checked_should_update(
            used_mem_kb,
            self.prev_used_mem_kb,
            self.config.threshold_kb,
            total_memory_kb,
        ) {
            Some(due) => due,
            None => {
                return None;
            },
        };
        if will_write {
            self.prev_used_mem_kb = used_mem_kb;
        }
        let write = if will_write && self.output_mode.use_xenstore() {
            Some(to_decimal(used_mem_kb))
        } else {
            None
        };
        let next = if self.once {
            Next::Exit
        } else {
            Next::Sleep(self.config.delay_us)
        };
        let report = Report {
            total_memory_kb,
            available_memory_kb,
            entry_weights: weights,
            entry_used_weighted: amounts,
            used_mem_kb,
            will_write,
        };
        Some(Step { report, write, next })
    }
}

/// Whether `report` is what `reading` comes to for `reporter`.
pub open spec fn report_of(reporter: Reporter, reading: Reading, report: Report) -> bool {
    &&& report.total_memory_kb == reading.total_kb()
    &&& report.available_memory_kb == reading.available_kb()
    &&& report.entry_weights@ == reading.swap().map_values(
        |e: crate::swap::SwapEntryView|
            crate::config::rule_weight(e.filename, reporter.config.swap@),
    )
    &&& report.entry_used_weighted@ == crate::swap::weighted_amounts(
        reading.swap(),
        reporter.config.swap@,
    )
    &&& report.used_mem_kb == reading.used(reporter.config)
    &&& report.will_write == reporter.publishes(reading)
}

/// The first iteration always publishes.
pub proof fn first_iteration_publishes(reporter: Reporter, reading: Reading)
    requires
        reporter.prev_used_mem_kb == 0,
    ensures
        reporter.publishes(reading),
{
}

/// After every iteration the published value is within the threshold of the memory in
/// use.
pub proof fn published_value_stays_within_threshold(reporter: Reporter, reading: Reading)
    requires
        reading.fits(reporter.config),
    ensures
        crate::mem::distance(
            reporter.after(reading).prev_used_mem_kb,
            reading.used(reporter.config) as u64,
        ) <= reporter.config.threshold_kb,
{
}

/// A reading that comes again right away is not published again, unless no memory at all
/// is in use.
pub proof fn steady_reading_is_published_once(reporter: Reporter, reading: Reading)
    requires
        reading.fits(reporter.config),
        reading.used(reporter.config) != 0,
    ensures
        reporter.publishes(reading) ==> !reporter.after(reading).publishes(reading),
{
    crate::sum::sum_of_nothing_is_zero(
        crate::swap::weighted_amounts(reading.swap(), reporter.config.swap@),
    );
}

/// An iteration changes nothing but the last published value.
pub proof fn settings_never_change(reporter: Reporter, reading: Reading)
    ensures
        reporter.after(reading).config == reporter.config,
        reporter.after(reading).output_mode == reporter.output_mode,
        reporter.after(reading).once == reporter.once,
{
}

/// Under a first rule of weight zero for all swap areas, memory in use is used RAM only.
pub proof fn zero_weight_leaves_used_ram(config: Config, reading: Reading)
    requires
        config.swap@.len() > 0,
        config.swap@[0].glob@ == seq!['*'],
        config.swap@[0].weight.finite(),
        config.swap@[0].weight.significand() == 0,
    ensures
        reading.used(config) == crate::mem::used_memory(
            reading.total_kb(),
            reading.available_kb(),
            reading.xen_current_kb,
            0,
        ),
{
    crate::swap::zero_weight_for_all_excludes_swap(reading.swap(), config.swap@);
}

/// What is reported is never above the total less free memory, buffers and cache, with the
/// used swap on top. This takes weights of at most one, a balloon driver that gives no
/// more than the total, free memory, buffers and cache that are part of what is available,
/// and amounts of used swap that rounding to binary64 makes no larger, as it does not up
/// to two to the power of 53.
pub proof fn report_is_no_more_than_by_free_memory(
    config: Config,
    reading: Reading,
    free: u64,
    buffers: u64,
    cached: u64,
)
    requires
        reading.swap_used(config) <= u64::MAX,
        crate::mem::effective_total(reading.total_kb(), reading.xen_current_kb)
            <= reading.total_kb(),
        free + buffers + cached <= reading.available_kb(),
        free + buffers + cached <= reading.total_kb(),
        forall|j: int|
            0 <= j < config.swap@.len() ==> (#[trigger] config.swap@[j]).weight.at_most_one(),
        forall|i: int|
            0 <= i < reading.swap().len() ==> (#[trigger] reading.swap()[i]).used_kb
                <= crate::weight::EXACT_LIMIT || crate::weight::saturated(
                crate::weight::nearest(reading.swap()[i].used_kb as nat),
            ) <= reading.swap()[i].used_kb,
    ensures
        reading.used(config) <= reading.total_kb() - free - buffers - cached + swap_used_raw(
            reading,
        ),
{
    crate::swap::weights_of_at_most_one_count_no_more(reading.swap(), config.swap@);
    crate::sum::sum_of_nothing_is_zero(
        crate::swap::weighted_amounts(reading.swap(), config.swap@),
    );
}

/// The sizes of all swap areas together.
pub open spec fn swap_total(reading: Reading) -> int {
    crate::sum::sum(reading.swap().map_values(|e: crate::swap::SwapEntryView| e.total_kb))
}

/// The used swap of all swap areas together, each counted in full.
pub open spec fn swap_used_raw(reading: Reading) -> int {
    crate::sum::sum(reading.swap().map_values(|e: crate::swap::SwapEntryView| e.used_kb))
}

/// An amount with its name and unit.
pub open spec fn amount(name: Seq<char>, kb: nat) -> Seq<char> {
    name + crate::text::decimal(kb) + "kB"@
}

/// The line that sums up an iteration.
pub open spec fn summary_line(reading: Reading, report: Report) -> Seq<char> {
    let xen: u64 = match reading.xen_current_kb {
        Some(kb) => kb,
        None => 0,
    };
    amount("total_mem="@, report.total_memory_kb as nat) + amount(
        " available_mem="@,
        report.available_memory_kb as nat,
    ) + amount(" swap_total="@, swap_total(reading) as nat) + amount(
        " swap_used_raw="@,
        swap_used_raw(reading) as nat,
    ) + amount(" xen_current="@, xen as nat) + amount(" used_mem="@, report.used_mem_kb as nat)
}

/// The line about one swap area; `weight` is its weight in words.
pub open spec fn swap_line(
    entry: crate::swap::SwapEntryView,
    weight: Seq<char>,
    used_weighted: u64,
) -> Seq<char> {
    "  swap: "@ + entry.filename + amount(" total="@, entry.total_kb as nat) + amount(
        " used_raw="@,
        entry.used_kb as nat,
    ) + " weight="@ + weight + amount(" used_weighted="@, used_weighted as nat)
}

/// The line that says whether the value is published.
pub open spec fn decision_line(report: Report) -> Seq<char> {
    (if report.will_write {
        "xenstore write: "@
    } else {
        "xenstore skipped (threshold): "@
    }) + XENSTORE_MEMINFO_PATH@ + "="@ + crate::text::decimal(report.used_mem_kb as nat)
}

/// The texts of a list of strings.
pub open spec fn texts(strings: Seq<String>) -> Seq<Seq<char>> {
    strings.map_values(|s: String| s@)
}

/// The lines that an iteration prints: the summary, one line for each swap area, and the
/// decision.
pub open spec fn printed_lines(
    reading: Reading,
    report: Report,
    weights: Seq<String>,
) -> Seq<Seq<char>> {
    seq![summary_line(reading, report)] + Seq::new(
        reading.swap().len(),
        |i: int|
            swap_line(reading.swap()[i], weights[i]@, report.entry_used_weighted@[i]),
    ) + seq![decision_line(report)]
}

fn append_amount(text: &mut String, name: &str, kb: u64)
    ensures
        final(text)@ == old(text)@ + amount(name@, kb as nat),
{
    text.append(name);
    text.append(to_decimal(kb).as_str());
    text.append("kB");
    assert(text@ =~= old(text)@ + amount(name@, kb as nat));
}

fn swap_text(entry: &SwapEntry, weight: &str, used_weighted: u64) -> (r: String)
    ensures
        r@ == swap_line(entry@, weight@, used_weighted),
{
    let mut text = "  swap: ".to_owned();
    text.append(entry.filename.as_str());
    append_amount(&mut text, " total=", entry.total_kb);
    append_amount(&mut text, " used_raw=", entry.used_kb);
    text.append(" weight=");
    text.append(weight);
    append_amount(&mut text, " used_weighted=", used_weighted);
    text
}

fn decision_text(report: &Report) -> (r: String)
    ensures
        r@ == decision_line(*report),
{
    let mut text = if report.will_write {
        "xenstore write: ".to_owned()
    } else {
        "xenstore skipped (threshold): ".to_owned()
    };
    text.append(XENSTORE_MEMINFO_PATH);
    text.append("=");
    text.append(to_decimal(report.used_mem_kb).as_str());
    text
}

/// The lines to print about an iteration on `reading`; `weights` are the weights of its
/// swap areas in words. `None` where the sum of all sizes or of all used swap does not fit
/// in 64 bits.
pub fn report_lines(reading: &Reading, report: &Report, weights: &[String]) -> (r: Option<
    Vec<String>,
>)
    requires
        report.entry_used_weighted@.len() == reading.swap_entries@.len(),
        weights@.len() == reading.swap_entries@.len(),
    ensures
        r is Some <==> swap_total(*reading) <= u64::MAX && swap_used_raw(*reading) <= u64::MAX,
        r matches Some(lines) ==> texts(lines@) == printed_lines(*reading, *report, weights@),
{
    let ghost entries = reading.swap();
    let mut totals: Vec<u64> = Vec::new();
    let mut used: Vec<u64> = Vec::new();
    let mut i: usize = 0;
    while i < reading.swap_entries.len()
        invariant
            i <= reading.swap_entries@.len(),
            entries == reading.swap(),
            totals@ == entries.map_values(|e: crate::swap::SwapEntryView| e.total_kb).take(
                i as int,
            ),
            used@ == entries.map_values(|e: crate::swap::SwapEntryView| e.used_kb).take(i as int),
        decreases reading.swap_entries@.len() - i,
    {
        totals.push(reading.swap_entries[i].total_kb);
        used.push(reading.swap_entries[i].used_kb);
        i += 1;
    }
    proof {
        assert(totals@ =~= entries.map_values(|e: crate::swap::SwapEntryView| e.total_kb));
        assert(used@ =~= entries.map_values(|e: crate::swap::SwapEntryView| e.used_kb));
        crate::sum::sum_of_nothing_is_zero(totals@);
        crate::sum::sum_of_nothing_is_zero(used@);
    }
    let swap_total_kb: u64 = match checked_sum(totals.as_slice()) {
        Some(kb) => kb,
        None => {
            return None;
        },
    };
    let swap_used_kb_raw: u64 = match checked_sum(used.as_slice()) {
        Some(kb) => kb,
        None => {
            return None;
        },
    };
    let mut summary = String::new();
    append_amount(&mut summary, "total_mem=", report.total_memory_kb);
    append_amount(&mut summary, " available_mem=", report.available_memory_kb);
    append_amount(&mut summary, " swap_total=", swap_total_kb);
    append_amount(&mut summary, " swap_used_raw=", swap_used_kb_raw);
    append_amount(&mut summary, " xen_current=", reading.xen_current_kb.unwrap_or(0));
    append_amount(&mut summary, " used_mem=", report.used_mem_kb);
    assert(summary@ =~= summary_line(*reading, *report));
    let ghost expected = printed_lines(*reading, *report, weights@);
    let mut lines: Vec<String> = Vec::new();
    lines.push(summary);
    assert(texts(lines@) =~= expected.take(1));
    let mut i: usize = 0;
    while i < reading.swap_entries.len()
        invariant
            i <= reading.swap_entries@.len(),
            report.entry_used_weighted@.len() == reading.swap_entries@.len(),
            weights@.len() == reading.swap_entries@.len(),
            expected == printed_lines(*reading, *report, weights@),
            texts(lines@) == expected.take(i + 1),
        decreases reading.swap_entries@.len() - i,
    {
        let ghost earlier = lines@;
        let line = swap_text(
            &reading.swap_entries[i],
            weights[i].as_str(),
            report.entry_used_weighted[i],
        );
        assert(expected[i + 1] == line@);
        lines.push(line);
        assert(texts(lines@) =~= texts(earlier).push(line@));
        assert(expected.take(i + 2) =~= expected.take(i + 1).push(expected[i + 1]));
        i += 1;
    }
    let ghost earlier = lines@;
    let decision = decision_text(report);
    let ghost last = decision@;
    lines.push(decision);
    assert(texts(lines@) =~= texts(earlier).push(last));
    assert(texts(lines@) =~= expected);
    Some(lines)
}

/// One iteration in numbers. The amounts in bytes count in whole kB, 1024 bytes each. With
/// the balloon driver's figure, or the total where there is none, for what the guest has,
/// memory in use is what it has beyond what is available, and the weighted swap. It is
/// published if nothing was published before; or if it is away from the last value, up or
/// down, by more than the threshold; or if it is above the last value by more than half the
/// threshold while thirteen times the value exceeds ten times the total and a hundred and
/// twenty. What is published becomes the last value; otherwise the last value stays.
pub proof fn iteration_in_numbers(
    reporter: Reporter,
    reading: Reading,
    report: Report,
    have: int,
    swap: int,
    used: int,
)
    requires
        swap == crate::sum::sum(
            crate::swap::weighted_amounts(
                crate::swap::entry_views(reading.swap_entries@),
                reporter.config.swap@,
            ),
        ),
        have == match reading.xen_current_kb {
            Some(kb) => kb as int,
            None => reading.total_bytes as int / 1024,
        },
        used == swap + if have > reading.available_bytes as int / 1024 {
            have - reading.available_bytes as int / 1024
        } else {
            0
        },
        used <= 18_446_744_073_709_551_615,
        report_of(reporter, reading, report),
    ensures
        ({
            let total = reading.total_bytes as int / 1024;
            let prev = reporter.prev_used_mem_kb as int;
            let threshold = reporter.config.threshold_kb as int;
            let published = prev == 0 || used - prev > threshold || prev - used > threshold || (used
                > prev && 13 * used > 10 * total + 120 && 2 * (used - prev) > threshold);
            &&& report.total_memory_kb == total
            &&& report.available_memory_kb == reading.available_bytes as int / 1024
            &&& report.used_mem_kb == used
            &&& report.will_write <==> published
            &&& reporter.publishes(reading) <==> published
            &&& published ==> reporter.after(reading).prev_used_mem_kb == used
            &&& !published ==> reporter.after(reading).prev_used_mem_kb == prev
        }),
{
    let amounts = crate::swap::weighted_amounts(reading.swap(), reporter.config.swap@);
    crate::sum::sum_of_nothing_is_zero(amounts);
    crate::mem::used_memory_balances(
        reading.total_kb(),
        reading.available_kb(),
        reading.xen_current_kb,
        swap as u64,
    );
    crate::mem::decision_in_numbers(
        used as u64,
        reporter.prev_used_mem_kb,
        reporter.config.threshold_kb,
        reading.total_kb(),
    );
}

/// Under memory pressure half the threshold is enough: usage that has risen by more than
/// half the threshold is published where it is above ten thirteenths of the total and
/// twelve, and only past the whole threshold where it is not.
pub proof fn pressure_halves_the_threshold(reporter: Reporter, reading: Reading)
    requires
        reading.fits(reporter.config),
        reporter.prev_used_mem_kb != 0,
        reading.used(reporter.config) > reporter.prev_used_mem_kb,
    ensures
        ({
            let used = reading.used(reporter.config);
            let rise = used - reporter.prev_used_mem_kb;
            let total = reading.total_bytes as int / 1024;
            &&& 13 * used > 10 * (total + 12) ==> (reporter.publishes(reading) <==> 2 * rise
                > reporter.config.threshold_kb)
            &&& 13 * used <= 10 * (total + 12) ==> (reporter.publishes(reading) <==> rise
                > reporter.config.threshold_kb)
        }),
{
    crate::mem::decision_in_numbers(
        reading.used(reporter.config) as u64,
        reporter.prev_used_mem_kb,
        reporter.config.threshold_kb,
        reading.total_kb(),
    );
}

/// When an iteration comes to something: the weighted swap and the memory in use fit in
/// 64 bits; and so do thirteen times the one and ten times the total and twelve, unless
/// nothing was published before, or usage has not risen, or has risen by more than the
/// threshold.
pub proof fn iteration_fits_in_numbers(
    reporter: Reporter,
    reading: Reading,
    have: int,
    swap: int,
    used: int,
)
    requires
        swap == crate::sum::sum(
            crate::swap::weighted_amounts(
                crate::swap::entry_views(reading.swap_entries@),
                reporter.config.swap@,
            ),
        ),
        have == match reading.xen_current_kb {
            Some(kb) => kb as int,
            None => reading.total_bytes as int / 1024,
        },
        used == swap + if have > reading.available_bytes as int / 1024 {
            have - reading.available_bytes as int / 1024
        } else {
            0
        },
    ensures
        reading.swap_used(reporter.config) == swap,
        swap <= 18_446_744_073_709_551_615 ==> reading.used(reporter.config) == used,
        reading.fits(reporter.config) <==> used <= 18_446_744_073_709_551_615,
        reporter.step_fits(reading) <==> {
            &&& used <= 18_446_744_073_709_551_615
            &&& {
                ||| reporter.prev_used_mem_kb == 0
                ||| used <= reporter.prev_used_mem_kb
                ||| used - reporter.prev_used_mem_kb > reporter.config.threshold_kb
                ||| 13 * used <= 18_446_744_073_709_551_615 && 10 * (reading.total_bytes as int
                    / 1024) + 120 <= 18_446_744_073_709_551_615
            }
        },
{
    let amounts = crate::swap::weighted_amounts(reading.swap(), reporter.config.swap@);
    crate::sum::sum_of_nothing_is_zero(amounts);
    if swap <= u64::MAX {
        crate::mem::used_memory_balances(
            reading.total_kb(),
            reading.available_kb(),
            reading.xen_current_kb,
            swap as u64,
        );
        if used <= u64::MAX {
            crate::mem::overflow_in_numbers(
                used as u64,
                reporter.prev_used_mem_kb,
                reporter.config.threshold_kb,
                reading.total_kb(),
            );
        }
    }
}

/// A report has, for each swap area in order, the weight that the rules give its name, and
/// what its usage counts for under that weight.
pub proof fn report_weighs_each_swap_area(
    reporter: Reporter,
    reading: Reading,
    report: Report,
    i: int,
)
    requires
        report_of(reporter, reading, report),
    ensures
        report.entry_weights@.len() == reading.swap_entries@.len(),
        report.entry_used_weighted@.len() == reading.swap_entries@.len(),
        0 <= i < reading.swap_entries@.len() ==> report.entry_weights@[i]
            == crate::config::rule_weight(
            reading.swap_entries@[i].filename@,
            reporter.config.swap@,
        ) && report.entry_used_weighted@[i] == crate::weight::weighted(
            reading.swap_entries@[i].used_kb,
            report.entry_weights@[i],
        ),
{
}

/// A further swap area adds its size to the sum of the sizes and its usage to the sum of
/// the used swap; without swap areas both are zero.
pub proof fn further_area_adds_its_size_and_usage(
    before: Reading,
    after: Reading,
    entry: SwapEntry,
)
    requires
        after.swap_entries@ == before.swap_entries@.push(entry),
    ensures
        before.swap_entries@.len() == 0 ==> swap_total(before) == 0 && swap_used_raw(before) == 0,
        swap_total(after) == swap_total(before) + entry.total_kb,
        swap_used_raw(after) == swap_used_raw(before) + entry.used_kb,
{
    let totals = before.swap().map_values(|e: crate::swap::SwapEntryView| e.total_kb);
    let used = before.swap().map_values(|e: crate::swap::SwapEntryView| e.used_kb);
    assert(after.swap().map_values(|e: crate::swap::SwapEntryView| e.total_kb) =~= totals.push(
        entry.total_kb,
    ));
    assert(after.swap().map_values(|e: crate::swap::SwapEntryView| e.used_kb) =~= used.push(
        entry.used_kb,
    ));
    crate::sum::further_amount_adds_itself(totals, entry.total_kb);
    crate::sum::further_amount_adds_itself(used, entry.used_kb);
    crate::sum::sum_of_nothing_is_zero(totals);
    crate::sum::sum_of_nothing_is_zero(used);
}

proof fn lemma_amount_appended(text: Seq<char>, name: Seq<char>, kb: nat)
    ensures
        text + amount(name, kb) == text + name + crate::text::decimal(kb) + "kB"@,
{
    assert(text + amount(name, kb) =~= text + name + crate::text::decimal(kb) + "kB"@);
}

/// What is printed is a summary, a line for each swap area in order, and the decision, and
/// each amount in them is written in full in decimal digits.
pub proof fn printed_lines_hold_every_amount(
    reading: Reading,
    report: Report,
    weights: Seq<String>,
    xen: u64,
    i: int,
)
    requires
        reading.xen_current_kb is None ==> xen == 0,
        reading.xen_current_kb is Some ==> reading.xen_current_kb == Some(xen),
    ensures
        printed_lines(reading, report, weights).len() == reading.swap_entries@.len() + 2,
        printed_lines(reading, report, weights)[0] == "total_mem="@ + crate::text::decimal(
            report.total_memory_kb as nat,
        ) + "kB"@ + " available_mem="@ + crate::text::decimal(report.available_memory_kb as nat)
            + "kB"@ + " swap_total="@ + crate::text::decimal(swap_total(reading) as nat) + "kB"@
            + " swap_used_raw="@ + crate::text::decimal(swap_used_raw(reading) as nat) + "kB"@
            + " xen_current="@ + crate::text::decimal(xen as nat) + "kB"@ + " used_mem="@
            + crate::text::decimal(report.used_mem_kb as nat) + "kB"@,
        0 <= i < reading.swap_entries@.len() ==> printed_lines(reading, report, weights)[i + 1]
            == "  swap: "@
            + reading.swap_entries@[i].filename@ + " total="@ + crate::text::decimal(
            reading.swap_entries@[i].total_kb as nat,
        ) + "kB"@ + " used_raw="@ + crate::text::decimal(reading.swap_entries@[i].used_kb as nat)
            + "kB"@ + " weight="@ + weights[i]@ + " used_weighted="@ + crate::text::decimal(
            report.entry_used_weighted@[i] as nat,
        ) + "kB"@,
        report.will_write ==> printed_lines(
            reading,
            report,
            weights,
        ).last() == "xenstore write: "@ + "memory/meminfo"@ + "="@ + crate::text::decimal(
            report.used_mem_kb as nat,
        ),
        !report.will_write ==> printed_lines(
            reading,
            report,
            weights,
        ).last() == "xenstore skipped (threshold): "@ + "memory/meminfo"@ + "="@
            + crate::text::decimal(report.used_mem_kb as nat),
{
    let lines = printed_lines(reading, report, weights);
    assert(lines[0] == summary_line(reading, report));
    assert(lines.last() == decision_line(report));
    let total = amount("total_mem="@, report.total_memory_kb as nat);
    let available = report.available_memory_kb as nat;
    lemma_amount_appended(total, " available_mem="@, available);
    let text = total + amount(" available_mem="@, available);
    lemma_amount_appended(text, " swap_total="@, swap_total(reading) as nat);
    let text = text + amount(" swap_total="@, swap_total(reading) as nat);
    lemma_amount_appended(text, " swap_used_raw="@, swap_used_raw(reading) as nat);
    let text = text + amount(" swap_used_raw="@, swap_used_raw(reading) as nat);
    lemma_amount_appended(text, " xen_current="@, xen as nat);
    let text = text + amount(" xen_current="@, xen as nat);
    lemma_amount_appended(text, " used_mem="@, report.used_mem_kb as nat);
    if 0 <= i < reading.swap_entries@.len() {
        let entry = reading.swap()[i];
        let used_weighted = report.entry_used_weighted@[i];
        assert(lines[i + 1] == swap_line(entry, weights[i]@, used_weighted));
        let text = "  swap: "@ + entry.filename;
        lemma_amount_appended(text, " total="@, entry.total_kb as nat);
        let text = text + amount(" total="@, entry.total_kb as nat);
        lemma_amount_appended(text, " used_raw="@, entry.used_kb as nat);
        let text = text + amount(" used_raw="@, entry.used_kb as nat) + " weight="@ + weights[i]@;
        lemma_amount_appended(text, " used_weighted="@, used_weighted as nat);
    }
}

/// The texts of a list of strings are in its order.
pub proof fn texts_are_in_order(strings: Seq<String>, i: int)
    ensures
        texts(strings).len() == strings.len(),
        0 <= i < strings.len() ==> texts(strings)[i] == strings[i]@,
{
}

} // verus!
