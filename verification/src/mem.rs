//! Memory usage computation and the heuristic that decides when to publish it.

use crate::text::{chars_of, parse_number, trimmed_bounds};
use vstd::prelude::*;

verus! {

/// The balloon driver's allocation as text states it: a decimal number, whitespace
/// around it aside. Zero means "not set", as does any other text.
pub open spec fn xen_allocation(content: Seq<char>) -> Option<u64> {
    match crate::text::number(crate::text::trim(content)) {
        Some(v) => if v == 0 {
            None
        } else {
            Some(v)
        },
        None => None,
    }
}

/// The Xen balloon driver's current memory allocation in kB, from the text that the
/// driver publishes.
///
/// Returns `None` when the text is no number or is zero (meaning "not set").
pub fn parse_xen_current_kb(content: &str) -> (r: Option<u64>)
    ensures
        r == xen_allocation(content@),
{
    let chars = chars_of(content);
    let (from, to) = trimmed_bounds(&chars);
    match parse_number(&chars, from, to) {
        Some(v) => if v == 0 {
            None
        } else {
            Some(v)
        },
        None => None,
    }
}

/// The memory that the guest has: the balloon driver's figure where there is one,
/// else the kernel's.
pub open spec fn effective_total(total_memory_kb: u64, xen_current_kb: Option<u64>) -> u64 {
    match xen_current_kb {
        Some(kb) => kb,
        None => total_memory_kb,
    }
}

/// Memory in use: what the guest has less what is available, but never below zero,
/// and the weighted used swap on top.
pub open spec fn used_memory(
    total_memory_kb: u64,
    available_memory_kb: u64,
    xen_current_kb: Option<u64>,
    weighted_swap_used_kb: u64,
) -> int {
    let have = effective_total(total_memory_kb, xen_current_kb);
    let ram = if have >= available_memory_kb {
        have - available_memory_kb
    } else {
        0
    };
    ram + weighted_swap_used_kb
}

/// Return the total "used" memory in kB: used RAM + weighted used swap.
///
/// When `xen_current_kb` is `Some`, it replaces the kernel-reported total
/// memory (the Xen balloon driver may have shrunk the VM's allocation below
/// what the OS thinks is installed).
///
/// `weighted_swap_used_kb` is the sum of each swap device's used-kB multiplied by
/// its configured weight, as
/// [`swap::weighted_swap_used_kb`](crate::swap::weighted_swap_used_kb) computes it.
pub fn compute_used_memory(
    total_memory_kb: u64,
    available_memory_kb: u64,
    xen_current_kb: Option<u64>,
    weighted_swap_used_kb: u64,
) -> (r: u64)
    requires
        used_memory(
            total_memory_kb,
            available_memory_kb,
            xen_current_kb,
            weighted_swap_used_kb,
        ) <= u64::MAX,
    ensures
        r == used_memory(
            total_memory_kb,
            available_memory_kb,
            xen_current_kb,
            weighted_swap_used_kb,
        ),
{
    let effective_total_kb: u64 = xen_current_kb.unwrap_or(total_memory_kb);
    // "used RAM" = effective total - MemAvailable (accounts for free pages,
    // buffers, and reclaimable cache).
    let used_ram_kb: u64 = effective_total_kb.saturating_sub(available_memory_kb);
    used_ram_kb + weighted_swap_used_kb
}

/// Absolute difference of two amounts.
pub open spec fn distance(a: u64, b: u64) -> int {
    if a >= b {
        a - b
    } else {
        b - a
    }
}

/// Whether usage is above ten thirteenths (about 77 %) of twelve more than the total.
pub open spec fn under_pressure(used_mem_kb: u64, total_mem_kb: u64) -> bool {
    used_mem_kb * 13 > (total_mem_kb + 12) * 10
}

/// Whether a new value is worth publishing: it is the first one, it differs from the
/// last one by more than the threshold, or memory is under pressure and usage has
/// risen by more than half the threshold.
pub open spec fn update_due(
    used_mem_kb: u64,
    prev_used_mem_kb: u64,
    threshold_kb: u64,
    total_mem_kb: u64,
) -> bool {
    let diff = distance(used_mem_kb, prev_used_mem_kb);
    ||| prev_used_mem_kb == 0
    ||| diff > threshold_kb
    ||| used_mem_kb > prev_used_mem_kb && under_pressure(used_mem_kb, total_mem_kb) && diff
        > threshold_kb / 2
}

/// Whether the decision depends on memory pressure: there is a last value, and usage
/// has risen from it by no more than the threshold.
pub open spec fn pressure_consulted(
    used_mem_kb: u64,
    prev_used_mem_kb: u64,
    threshold_kb: u64,
) -> bool {
    &&& prev_used_mem_kb != 0
    &&& used_mem_kb > prev_used_mem_kb
    &&& distance(used_mem_kb, prev_used_mem_kb) <= threshold_kb
}

/// Whether both sides of the pressure comparison fit in 64 bits.
pub open spec fn pressure_fits(used_mem_kb: u64, total_mem_kb: u64) -> bool {
    used_mem_kb * 13 <= u64::MAX && (total_mem_kb + 12) * 10 <= u64::MAX
}

/// Decide whether the new value is worth sending to xenstore.
///
/// * Always send on the first update (`prev == 0`).
/// * Send when the absolute change exceeds `threshold_kb`.
/// * Send when memory is under pressure (> ~77 % of total) and usage is
///   rising and the change exceeds half the threshold.
pub fn should_update(
    used_mem_kb: u64,
    prev_used_mem_kb: u64,
    threshold_kb: u64,
    total_mem_kb: u64,
) -> (r: bool)
    requires
        pressure_consulted(used_mem_kb, prev_used_mem_kb, threshold_kb) ==> pressure_fits(
            used_mem_kb,
            total_mem_kb,
        ),
    ensures
        r == update_due(used_mem_kb, prev_used_mem_kb, threshold_kb, total_mem_kb),
{
    if prev_used_mem_kb == 0 {
        return true;
    }
    let diff: u64 = if used_mem_kb >= prev_used_mem_kb {
        used_mem_kb - prev_used_mem_kb
    } else {
        prev_used_mem_kb - used_mem_kb
    };
    if diff > threshold_kb {
        return true;
    }
    // Ten thirteenths of the total, the boundary of memory pressure, are compared
    // without a division: both sides are multiplied by 130.
    used_mem_kb > prev_used_mem_kb && used_mem_kb * 13 > (total_mem_kb + 12) * 10 && diff
        > threshold_kb / 2
}

/// [`should_update`] on any input: `None` where the pressure comparison is needed and
/// does not fit in 64 bits.
pub fn checked_should_update(
    used_mem_kb: u64,
    prev_used_mem_kb: u64,
    threshold_kb: u64,
    total_mem_kb: u64,
) -> (r: Option<bool>)
    ensures
        r == if pressure_consulted(used_mem_kb, prev_used_mem_kb, threshold_kb) && !pressure_fits(
            used_mem_kb,
            total_mem_kb,
        ) {
            None
        } else {
            Some(update_due(used_mem_kb, prev_used_mem_kb, threshold_kb, total_mem_kb))
        },
{
    let consulted: bool = prev_used_mem_kb != 0 && used_mem_kb > prev_used_mem_kb && used_mem_kb
        - prev_used_mem_kb <= threshold_kb;
    let fits: bool = used_mem_kb <= u64::MAX / 13 && total_mem_kb <= u64::MAX / 10 - 12;
    if consulted && !fits {
        None
    } else {
        Some(should_update(used_mem_kb, prev_used_mem_kb, threshold_kb, total_mem_kb))
    }
}

/// [`compute_used_memory`] on any input: `None` where the sum does not fit in 64 bits.
pub fn checked_used_memory(
    total_memory_kb: u64,
    available_memory_kb: u64,
    xen_current_kb: Option<u64>,
    weighted_swap_used_kb: u64,
) -> (r: Option<u64>)
    ensures
        r == {
            let used = used_memory(
                total_memory_kb,
                available_memory_kb,
                xen_current_kb,
                weighted_swap_used_kb,
            );
            if used <= u64::MAX {
                Some(used as u64)
            } else {
                None
            }
        },
{
    let have: u64 = xen_current_kb.unwrap_or(total_memory_kb);
    let ram: u64 = have.saturating_sub(available_memory_kb);
    if weighted_swap_used_kb > u64::MAX - ram {
        None
    } else {
        Some(
            compute_used_memory(
                total_memory_kb,
                available_memory_kb,
                xen_current_kb,
                weighted_swap_used_kb,
            ),
        )
    }
}

/// A number that the balloon driver publishes on a line of its own is read back, unless
/// it is zero.
pub proof fn published_allocation_reads_back(kb: u64)
    ensures
        xen_allocation(crate::text::decimal(kb as nat) + seq!['\n']) == if kb == 0 {
            None
        } else {
            Some(kb)
        },
{
    let digits = crate::text::decimal(kb as nat);
    let line = digits + seq!['\n'];
    crate::text::decimal_is_a_word(kb);
    crate::text::decimal_reads_back(kb);
    assert(!crate::text::is_space(digits[0]));
    assert(!crate::text::is_space(digits[digits.len() - 1]));
    assert(line[0] == digits[0]);
    assert(line.drop_last() == digits);
    assert(crate::text::trim(digits) == digits);
    assert(crate::text::trim(line) == crate::text::trim(digits));
}

/// The balloon driver's figure replaces the kernel's total.
pub proof fn xen_allocation_overrides_total(
    total_a: u64,
    total_b: u64,
    available: u64,
    xen: u64,
    swap: u64,
)
    ensures
        used_memory(total_a, available, Some(xen), swap) == used_memory(
            total_b,
            available,
            Some(xen),
            swap,
        ) == used_memory(xen, available, None, swap),
{
}

/// Used memory never falls when more swap is used, and never rises when more memory is
/// available.
pub proof fn used_memory_follows_its_inputs(
    total: u64,
    xen: Option<u64>,
    available_low: u64,
    available_high: u64,
    swap_low: u64,
    swap_high: u64,
)
    requires
        available_low <= available_high,
        swap_low <= swap_high,
    ensures
        used_memory(total, available_high, xen, swap_low) <= used_memory(
            total,
            available_low,
            xen,
            swap_high,
        ),
{
}

/// Counting with the available memory reports no more than counting with free memory,
/// buffers and cache, as long as these are part of what is available; where what is
/// available lies within the total, the two differ by the rest of what is available.
pub proof fn available_memory_reports_no_more_than_free_memory(
    total: u64,
    free: u64,
    buffers: u64,
    cached: u64,
    available: u64,
    swap_used: u64,
)
    requires
        free + buffers + cached <= available,
        free + buffers + cached <= total,
    ensures
        used_memory(total, available, None, swap_used) <= total - free - buffers - cached
            + swap_used,
        available <= total ==> (total - free - buffers - cached + swap_used) - used_memory(
            total,
            available,
            None,
            swap_used,
        ) == available - free - buffers - cached,
{
}

/// The first value is always published.
pub proof fn first_value_is_published(used: u64, threshold: u64, total: u64)
    ensures
        update_due(used, 0, threshold, total),
{
}

/// A change of more than the threshold is always published, in either direction.
pub proof fn large_change_is_published(used: u64, prev: u64, threshold: u64, total: u64)
    requires
        distance(used, prev) > threshold,
    ensures
        update_due(used, prev, threshold, total),
{
}

/// Once there is a last value, a change of at most half the threshold is never
/// published, nor is one within the threshold when usage has not risen or memory is
/// not under pressure.
pub proof fn small_change_is_not_published(used: u64, prev: u64, threshold: u64, total: u64)
    requires
        prev != 0,
        distance(used, prev) <= threshold,
        distance(used, prev) <= threshold / 2 || used <= prev || !under_pressure(used, total),
    ensures
        !update_due(used, prev, threshold, total),
{
}

/// A lower threshold publishes at least as often.
pub proof fn lower_threshold_publishes_more(
    used: u64,
    prev: u64,
    low: u64,
    high: u64,
    total: u64,
)
    requires
        low <= high,
        update_due(used, prev, high, total),
    ensures
        update_due(used, prev, low, total),
{
}

/// The decision with the pressure comparison made by integer division.
pub open spec fn update_due_by_division(used: u64, prev: u64, threshold: u64, total: u64) -> bool {
    let diff = distance(used, prev);
    ||| diff > threshold
    ||| prev == 0
    ||| used > prev && used as int / 10 > (total + 12) / 13 && diff > threshold / 2
}

/// Comparing by integer division gives the same decision, except where pressure decides
/// and the two quotients are equal although usage is past the boundary: there only the
/// comparison without division publishes.
pub proof fn division_gives_same_decision(used: u64, prev: u64, threshold: u64, total: u64)
    ensures
        update_due_by_division(used, prev, threshold, total) != update_due(
            used,
            prev,
            threshold,
            total,
        ) <==> {
            &&& pressure_consulted(used, prev, threshold)
            &&& distance(used, prev) > threshold / 2
            &&& used as int / 10 == (total + 12) / 13
            &&& under_pressure(used, total)
        },
        update_due_by_division(used, prev, threshold, total) ==> update_due(
            used,
            prev,
            threshold,
            total,
        ),
{
}

/// The balloon driver's figure is the number that is left when the whitespace around it is
/// taken off; zero, and a text that is no number, are none.
pub proof fn allocation_is_the_number_in_the_text(
    lead: Seq<char>,
    core: Seq<char>,
    trail: Seq<char>,
)
    requires
        forall|i: int| 0 <= i < lead.len() ==> crate::text::is_space(#[trigger] lead[i]),
        forall|i: int| 0 <= i < trail.len() ==> crate::text::is_space(#[trigger] trail[i]),
        core.len() > 0 ==> !crate::text::is_space(core[0]) && !crate::text::is_space(
            core[core.len() - 1],
        ),
    ensures
        crate::text::number(core) is None ==> xen_allocation(lead + core + trail) is None,
        crate::text::number(core) == Some(0u64) ==> xen_allocation(lead + core + trail) is None,
        crate::text::number(core) is Some && crate::text::number(core) != Some(0u64)
            ==> xen_allocation(lead + core + trail) == crate::text::number(core),
{
    crate::text::trimming_takes_whitespace_off_both_ends(lead, core, trail);
}

/// Used memory makes up the balance: with what is available it comes to what the guest has
/// and the weighted swap, unless more is available than the guest has; then the weighted
/// swap alone is in use.
pub proof fn used_memory_balances(total: u64, available: u64, xen: Option<u64>, swap: u64)
    ensures
        xen is None && available <= total ==> used_memory(total, available, xen, swap) + available
            == total + swap,
        xen is None && available > total ==> used_memory(total, available, xen, swap) == swap,
        xen is Some && available <= xen->Some_0 ==> used_memory(total, available, xen, swap)
            + available == xen->Some_0 + swap,
        xen is Some && available > xen->Some_0 ==> used_memory(total, available, xen, swap)
            == swap,
{
}

/// When a value is published, in numbers: there is no last value; or it has moved, up or
/// down, by more than the threshold; or it has risen, thirteen times the value exceeds ten
/// times the total and a hundred and twenty, and twice the rise exceeds the threshold.
pub proof fn decision_in_numbers(used: u64, prev: u64, threshold: u64, total: u64)
    ensures
        update_due(used, prev, threshold, total) <==> (prev == 0 || used - prev > threshold || prev
            - used > threshold || (used > prev && 13 * used > 10 * total + 120 && 2 * (used - prev)
            > threshold)),
{
}

/// When the decision is out of reach of 64-bit products, in numbers.
pub proof fn overflow_in_numbers(used: u64, prev: u64, threshold: u64, total: u64)
    ensures
        pressure_consulted(used, prev, threshold) && !pressure_fits(used, total) <==> (prev != 0
            && prev < used && used - prev <= threshold && (13 * used > 18_446_744_073_709_551_615
            || 10 * total + 120 > 18_446_744_073_709_551_615)),
{
}

} // verus!
