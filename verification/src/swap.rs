//! `/proc/swaps` parsing and the weighted sum of used swap.

use crate::config::{swap_weight, SwapWeightRule};
use crate::sum::checked_sum;
use crate::text::{chars_of, field_bounds, line_bounds, parse_number};
use crate::weight::Weight;
use vstd::prelude::*;

verus! {

/// Swap usage for a single device or file as reported by `/proc/swaps`.
#[derive(Debug, PartialEq)]
pub struct SwapEntry {
    /// Device path or file name (first column of `/proc/swaps`).
    pub filename: String,
    /// Total size in kB.
    pub total_kb: u64,
    /// Amount in use in kB.
    pub used_kb: u64,
}

/// A [`SwapEntry`] with its name as a sequence of characters.
pub struct SwapEntryView {
    pub filename: Seq<char>,
    pub total_kb: u64,
    pub used_kb: u64,
}

impl View for SwapEntry {
    type V = SwapEntryView;

    open spec fn view(&self) -> SwapEntryView {
        SwapEntryView {
            filename: self.filename@,
            total_kb: self.total_kb,
            used_kb: self.used_kb,
        }
    }
}

/// The entries of a list, in order.
pub open spec fn entry_views(entries: Seq<SwapEntry>) -> Seq<SwapEntryView> {
    entries.map_values(|e: SwapEntry| e@)
}

/// The number in column `i`: zero where the column is absent, and none where it is there
/// but holds no number.
pub open spec fn column_value(columns: Seq<Seq<char>>, i: int) -> Option<u64> {
    if i < columns.len() {
        crate::text::number(columns[i])
    } else {
        Some(0)
    }
}

/// The swap area that a line describes: its name in the first column, its size in the
/// third and its usage in the fourth. A blank line describes none, nor does one whose
/// size or usage is there but is no number.
pub open spec fn line_entry(line: Seq<char>) -> Option<SwapEntryView> {
    let columns = crate::text::fields(line);
    if columns.len() == 0 {
        None
    } else {
        match (column_value(columns, 2), column_value(columns, 3)) {
            (Some(total_kb), Some(used_kb)) => Some(
                SwapEntryView { filename: columns[0], total_kb, used_kb },
            ),
            _ => None,
        }
    }
}

/// The swap areas that a list of lines describes, in order.
pub open spec fn lines_entries(lines: Seq<Seq<char>>) -> Seq<SwapEntryView>
    decreases lines.len(),
{
    if lines.len() == 0 {
        Seq::empty()
    } else {
        let before = lines_entries(lines.drop_last());
        match line_entry(lines.last()) {
            Some(entry) => before.push(entry),
            None => before,
        }
    }
}

/// The swap areas that the text of `/proc/swaps` describes: one for each line after the
/// first that is neither blank nor otherwise unparseable.
pub open spec fn content_entries(content: Seq<char>) -> Seq<SwapEntryView> {
    lines_entries(crate::text::lines(content).skip(1))
}

/// Parse the text content of `/proc/swaps` and return one [`SwapEntry`] per
/// active swap area.
///
/// The kernel file format is:
/// ```text
/// Filename                        Type    Size    Used    Priority
/// /dev/sda2                       partition 8388604 0 -2
/// /swapfile                       file    2097148 1024 -3
/// ```
///
/// The first (header) line is skipped. Blank or otherwise unparseable lines
/// are silently ignored: a size or usage that is there must be a number. One
/// that is missing counts as zero.
pub fn parse_swap_content(content: &str) -> (r: Vec<SwapEntry>)
    ensures
        entry_views(r@) == content_entries(content@),
        r@.len() == content_entries(content@).len(),
        forall|i: int|
            0 <= i < r@.len() ==> (#[trigger] r@[i]).filename@ == content_entries(
                content@,
            )[i].filename && r@[i].total_kb == content_entries(content@)[i].total_kb
                && r@[i].used_kb == content_entries(content@)[i].used_kb,
{
    let chars = chars_of(content);
    let bounds = line_bounds(&chars);
    let mut entries: Vec<SwapEntry> = Vec::new();
    let ghost all = crate::text::lines(content@);
    let ghost body = all.skip(1);
    proof {
        assert(all.len() == bounds@.len());
        assert(body.take(0) == Seq::<Seq<char>>::empty());
        assert(entry_views(entries@) == Seq::<SwapEntryView>::empty());
    }
    let mut i: usize = 1;
    while i < bounds.len()
        invariant
            1 <= i <= bounds.len(),
            chars@ == content@,
            crate::text::bounds_within(bounds@, chars@.len() as int),
            crate::text::pieces(chars@, bounds@) == all,
            all.len() == bounds@.len(),
            body == all.skip(1),
            entry_views(entries@) == lines_entries(body.take(i - 1)),
        decreases bounds.len() - i,
    {
        let (from, to) = bounds[i];
        let ghost line = all[i as int];
        let ghost earlier = entries@;
        proof {
            assert(bounds@[i as int] == (from, to));
            assert(line == chars@.subrange(from as int, to as int));
            assert(body.take(i as int).drop_last() == body.take(i - 1));
            assert(body.take(i as int).last() == line);
        }
        let columns = field_bounds(&chars, from, to);
        assert(crate::text::fields(line).len() == columns@.len());
        if columns.len() > 0 {
            let (a, b) = columns[0];
            assert(columns@[0] == (a, b));
            assert(crate::text::fields(line)[0] == chars@.subrange(a as int, b as int));
            match (column_number(&chars, &columns, 2), column_number(&chars, &columns, 3)) {
                (Some(total_kb), Some(used_kb)) => {
                    let filename = content.substring_char(a, b).to_owned();
                    entries.push(SwapEntry { filename, total_kb, used_kb });
                    assert(entry_views(entries@) =~= entry_views(earlier).push(
                        entries@[entries@.len() - 1]@,
                    ));
                },
                _ => {},
            }
        }
        i += 1;
    }
    assert(body.take(body.len() as int) == body);
    assert forall|i: int| 0 <= i < entries@.len() implies (#[trigger] entries@[i]).filename@
        == content_entries(content@)[i].filename && entries@[i].total_kb == content_entries(
        content@,
    )[i].total_kb && entries@[i].used_kb == content_entries(content@)[i].used_kb by {
        assert(entry_views(entries@)[i] == entries@[i]@);
    }
    entries
}

/// The number in column `i` of a line: zero where the column is absent, `None` where it
/// is there but holds no number.
fn column_number(chars: &Vec<char>, columns: &Vec<(usize, usize)>, i: usize) -> (r: Option<u64>)
    requires
        crate::text::bounds_within(columns@, chars@.len() as int),
    ensures
        r == column_value(crate::text::pieces(chars@, columns@), i as int),
{
    if i < columns.len() {
        let (from, to) = columns[i];
        assert(columns@[i as int] == (from, to));
        parse_number(chars, from, to)
    } else {
        Some(0)
    }
}

proof fn lemma_lines_entries_append(a: Seq<Seq<char>>, b: Seq<Seq<char>>)
    ensures
        lines_entries(a + b) == lines_entries(a) + lines_entries(b),
    decreases b.len(),
{
    if b.len() == 0 {
        assert(a + b == a);
        assert(lines_entries(a) + Seq::<SwapEntryView>::empty() == lines_entries(a));
    } else {
        lemma_lines_entries_append(a, b.drop_last());
        assert((a + b).drop_last() == a + b.drop_last());
        assert((a + b).last() == b.last());
        assert(lines_entries(a + b) =~= lines_entries(a) + lines_entries(b));
    }
}

/// The first line, whatever it holds, describes no swap area.
pub proof fn header_is_ignored(header: Seq<char>, rest: Seq<char>)
    requires
        !header.contains('\n'),
    ensures
        content_entries(header) == Seq::<SwapEntryView>::empty(),
        content_entries(header + seq!['\n'] + rest) == lines_entries(crate::text::lines(rest)),
{
    crate::text::text_without_line_feed_is_one_line(header);
    crate::text::line_feed_separates_lines(header, rest);
    assert(crate::text::lines(header).skip(1) == Seq::<Seq<char>>::empty());
    assert(crate::text::lines(header + seq!['\n'] + rest).skip(1) == crate::text::lines(rest));
}

/// A further line adds the swap area that it describes, and changes nothing else.
pub proof fn each_line_is_read_on_its_own(content: Seq<char>, line: Seq<char>)
    requires
        !line.contains('\n'),
    ensures
        content_entries(content + seq!['\n'] + line) == content_entries(content) + match line_entry(
            line,
        ) {
            Some(entry) => seq![entry],
            None => Seq::empty(),
        },
{
    let before = crate::text::lines(content);
    crate::text::line_feed_separates_lines(content, line);
    crate::text::text_without_line_feed_is_one_line(line);
    assert((before + seq![line]).skip(1) == before.skip(1) + seq![line]);
    lemma_lines_entries_append(before.skip(1), seq![line]);
    assert(seq![line].drop_last() == Seq::<Seq<char>>::empty());
    reveal_with_fuel(lines_entries, 2);
    assert(lines_entries(seq![line]) =~= match line_entry(line) {
        Some(entry) => seq![entry],
        None => Seq::empty(),
    });
}

/// A line of whitespace alone describes no swap area.
pub proof fn blank_line_is_ignored(line: Seq<char>)
    requires
        forall|i: int| 0 <= i < line.len() ==> crate::text::is_space(#[trigger] line[i]),
    ensures
        line_entry(line) is None,
    decreases line.len(),
{
    if line.len() > 0 {
        assert(crate::text::is_space(line[0]));
        let rest = line.skip(1);
        assert forall|i: int| 0 <= i < rest.len() implies crate::text::is_space(
            #[trigger] rest[i],
        ) by {
            assert(rest[i] == line[i + 1]);
        }
        blank_line_is_ignored(rest);
    }
}

/// A line whose size or usage is there but is no number describes no swap area.
pub proof fn unparseable_line_is_ignored(line: Seq<char>, i: int)
    requires
        i == 2 || i == 3,
        i < crate::text::fields(line).len(),
        crate::text::number(crate::text::fields(line)[i]) is None,
    ensures
        line_entry(line) is None,
{
}

/// On a line that ends before its size, both size and usage count as zero; on one that
/// ends after its size, the usage does.
pub proof fn missing_numbers_count_as_zero(line: Seq<char>)
    ensures
        1 <= crate::text::fields(line).len() <= 2 ==> line_entry(line) == Some(
            SwapEntryView { filename: crate::text::fields(line)[0], total_kb: 0, used_kb: 0 },
        ),
        crate::text::fields(line).len() == 3 ==> match crate::text::number(
            crate::text::fields(line)[2],
        ) {
            Some(total_kb) => line_entry(line) == Some(
                SwapEntryView { filename: crate::text::fields(line)[0], total_kb, used_kb: 0 },
            ),
            None => line_entry(line) is None,
        },
{
}

/// Every swap area that is read has a name, which is free of whitespace.
pub proof fn every_entry_has_a_name(content: Seq<char>, i: int)
    requires
        0 <= i < content_entries(content).len(),
    ensures
        crate::text::is_word(content_entries(content)[i].filename),
{
    lemma_entries_have_names(crate::text::lines(content).skip(1), i);
}

proof fn lemma_entries_have_names(lines: Seq<Seq<char>>, i: int)
    requires
        0 <= i < lines_entries(lines).len(),
    ensures
        crate::text::is_word(lines_entries(lines)[i].filename),
    decreases lines.len(),
{
    let before = lines_entries(lines.drop_last());
    if i < before.len() {
        lemma_entries_have_names(lines.drop_last(), i);
    } else {
        crate::text::every_field_is_a_word(lines.last(), 0);
    }
}

/// A line with a name, a type, a size and a usage reads back as what was written.
pub proof fn written_line_reads_back(
    name: Seq<char>,
    kind: Seq<char>,
    total_kb: u64,
    used_kb: u64,
    tail: Seq<char>,
)
    requires
        crate::text::is_word(name),
        crate::text::is_word(kind),
    ensures
        line_entry(
            name + seq![' '] + (kind + seq![' '] + (crate::text::decimal(total_kb as nat) + seq![' ']
                + (crate::text::decimal(used_kb as nat) + seq![' '] + tail))),
        ) == Some(SwapEntryView { filename: name, total_kb, used_kb }),
{
    let total = crate::text::decimal(total_kb as nat);
    let used = crate::text::decimal(used_kb as nat);
    crate::text::decimal_is_a_word(total_kb);
    crate::text::decimal_is_a_word(used_kb);
    crate::text::decimal_reads_back(total_kb);
    crate::text::decimal_reads_back(used_kb);
    let d = used + seq![' '] + tail;
    let c = total + seq![' '] + d;
    let b = kind + seq![' '] + c;
    let a = name + seq![' '] + b;
    crate::text::word_is_first_field(used, ' ', tail);
    crate::text::word_is_first_field(total, ' ', d);
    crate::text::word_is_first_field(kind, ' ', c);
    crate::text::word_is_first_field(name, ' ', b);
    let f = crate::text::fields(tail);
    assert(crate::text::fields(a) == seq![name] + (seq![kind] + (seq![total] + (seq![used] + f))));
    assert(crate::text::fields(a)[0] == name);
    assert(crate::text::fields(a)[2] == total);
    assert(crate::text::fields(a)[3] == used);
}

/// What each entry counts for under the rules, in order.
pub open spec fn weighted_amounts(
    entries: Seq<SwapEntryView>,
    rules: Seq<SwapWeightRule>,
) -> Seq<u64> {
    entries.map_values(
        |e: SwapEntryView|
            crate::weight::weighted(e.used_kb, crate::config::rule_weight(e.filename, rules)),
    )
}

/// The weight of each entry, in order.
pub fn entry_weights(entries: &[SwapEntry], rules: &[SwapWeightRule]) -> (r: Vec<Weight>)
    ensures
        r@ == entry_views(entries@).map_values(
            |e: SwapEntryView| crate::config::rule_weight(e.filename, rules@),
        ),
{
    let mut weights: Vec<Weight> = Vec::new();
    let mut i: usize = 0;
    while i < entries.len()
        invariant
            i <= entries@.len(),
            weights@ == entry_views(entries@).map_values(
                |e: SwapEntryView| crate::config::rule_weight(e.filename, rules@),
            ).take(i as int),
        decreases entries@.len() - i,
    {
        weights.push(swap_weight(entries[i].filename.as_str(), rules));
        i += 1;
    }
    weights
}

/// What each entry counts for under its weight, in order.
pub fn apply_weights(entries: &[SwapEntry], weights: &[Weight]) -> (r: Vec<u64>)
    requires
        entries@.len() == weights@.len(),
    ensures
        r@ == Seq::new(
            entries@.len(),
            |i: int| crate::weight::weighted(entries@[i].used_kb, weights@[i]),
        ),
{
    let mut amounts: Vec<u64> = Vec::new();
    let mut i: usize = 0;
    while i < entries.len()
        invariant
            i <= entries@.len() == weights@.len(),
            amounts@ == Seq::new(
                i as nat,
                |j: int| crate::weight::weighted(entries@[j].used_kb, weights@[j]),
            ),
        decreases entries@.len() - i,
    {
        amounts.push(weights[i].apply(entries[i].used_kb));
        i += 1;
    }
    amounts
}

/// The sum of each swap area's used-kB multiplied by its configured weight, or `None`
/// where the sum does not fit in 64 bits.
pub fn checked_weighted_swap_used_kb(
    entries: &[SwapEntry],
    rules: &[SwapWeightRule],
) -> (r: Option<u64>)
    ensures
        r == {
            let total = crate::sum::sum(weighted_amounts(entry_views(entries@), rules@));
            if total <= u64::MAX {
                Some(total as u64)
            } else {
                None
            }
        },
{
    let weights = entry_weights(entries, rules);
    let amounts = apply_weights(entries, weights.as_slice());
    assert(amounts@ =~= weighted_amounts(entry_views(entries@), rules@));
    checked_sum(amounts.as_slice())
}

/// The sum of each swap area's used-kB multiplied by its configured weight.
pub fn weighted_swap_used_kb(entries: &[SwapEntry], rules: &[SwapWeightRule]) -> (r: u64)
    requires
        crate::sum::sum(weighted_amounts(entry_views(entries@), rules@)) <= u64::MAX,
    ensures
        r == crate::sum::sum(weighted_amounts(entry_views(entries@), rules@)),
{
    proof {
        crate::sum::sum_of_nothing_is_zero(weighted_amounts(entry_views(entries@), rules@));
    }
    checked_weighted_swap_used_kb(entries, rules).unwrap()
}

/// A rule of weight zero that applies to every swap area takes swap out of the count.
pub proof fn zero_weight_for_all_excludes_swap(
    entries: Seq<SwapEntryView>,
    rules: Seq<SwapWeightRule>,
)
    requires
        rules.len() > 0,
        rules[0].glob@ == seq!['*'],
        rules[0].weight.finite(),
        rules[0].weight.significand() == 0,
    ensures
        crate::sum::sum(weighted_amounts(entries, rules)) == 0,
{
    let amounts = weighted_amounts(entries, rules);
    assert forall|i: int| 0 <= i < amounts.len() implies #[trigger] amounts[i] == 0 by {
        let e = entries[i];
        crate::glob::star_matches_everything(e.filename);
        crate::weight::zero_weight_counts_nothing(e.used_kb, rules[0].weight);
    }
    crate::sum::sum_of_nothing_is_zero(amounts);
}

/// Without rules every swap area counts in full, as long as rounding to binary64 keeps
/// each amount, as it does up to two to the power of 53.
pub proof fn no_rules_count_swap_in_full(entries: Seq<SwapEntryView>)
    requires
        forall|i: int|
            0 <= i < entries.len() ==> crate::weight::saturated(
                crate::weight::nearest((#[trigger] entries[i]).used_kb as nat),
            ) == entries[i].used_kb,
    ensures
        weighted_amounts(entries, Seq::empty()) == entries.map_values(
            |e: SwapEntryView| e.used_kb,
        ),
{
    let amounts = weighted_amounts(entries, Seq::empty());
    assert forall|i: int| 0 <= i < amounts.len() implies #[trigger] amounts[i]
        == entries[i].used_kb by {
        crate::weight::unit_weight_counts_in_full(entries[i].used_kb);
    }
}

/// Under rules with weights of at most one, swap counts for no more than what is used, as
/// long as rounding to binary64 makes no amount larger, as it does not up to two to the
/// power of 53.
pub proof fn weights_of_at_most_one_count_no_more(
    entries: Seq<SwapEntryView>,
    rules: Seq<SwapWeightRule>,
)
    requires
        forall|j: int| 0 <= j < rules.len() ==> (#[trigger] rules[j]).weight.at_most_one(),
        forall|i: int|
            0 <= i < entries.len() ==> (#[trigger] entries[i]).used_kb
                <= crate::weight::EXACT_LIMIT || crate::weight::saturated(
                crate::weight::nearest(entries[i].used_kb as nat),
            ) <= entries[i].used_kb,
    ensures
        crate::sum::sum(weighted_amounts(entries, rules)) <= crate::sum::sum(
            entries.map_values(|e: SwapEntryView| e.used_kb),
        ),
{
    let amounts = weighted_amounts(entries, rules);
    let used = entries.map_values(|e: SwapEntryView| e.used_kb);
    assert forall|i: int| 0 <= i < amounts.len() implies #[trigger] amounts[i]
        <= #[trigger] used[i] by {
        let e = entries[i];
        crate::config::looked_up_weight_is_at_most_one(e.filename, rules);
        crate::weight::small_weight_counts_at_most_in_full(
            e.used_kb,
            crate::config::rule_weight(e.filename, rules),
        );
        crate::weight::unit_weight_counts_in_full(e.used_kb);
    }
    crate::sum::sum_is_monotone(amounts, used);
}

/// The list of views holds, in order, the name, size and usage of each entry.
pub proof fn entry_views_hold_every_field(entries: Seq<SwapEntry>, i: int)
    ensures
        entry_views(entries).len() == entries.len(),
        0 <= i < entries.len() ==> entry_views(entries)[i].filename == entries[i].filename@
            && entry_views(entries)[i].total_kb == entries[i].total_kb
            && entry_views(entries)[i].used_kb == entries[i].used_kb,
{
}

/// A line counts through its fields alone: with a number in the third and in the fourth,
/// the entry is the first field and those two numbers, whatever stands between them.
pub proof fn entry_is_read_off_the_fields(line: Seq<char>)
    requires
        crate::text::fields(line).len() >= 4,
        crate::text::number(crate::text::fields(line)[2]) is Some,
        crate::text::number(crate::text::fields(line)[3]) is Some,
    ensures
        match line_entry(line) {
            Some(entry) => entry.filename == crate::text::fields(line)[0] && Some(entry.total_kb)
                == crate::text::number(crate::text::fields(line)[2]) && Some(entry.used_kb)
                == crate::text::number(crate::text::fields(line)[3]),
            None => false,
        },
{
}

/// Lines with the same fields describe the same swap area, or both none.
pub proof fn spacing_of_columns_is_irrelevant(a: Seq<char>, b: Seq<char>)
    requires
        crate::text::fields(a) == crate::text::fields(b),
    ensures
        line_entry(a) == line_entry(b),
{
}

/// Columns may be set apart, and the line indented, by any whitespace: a line with a name,
/// a type, a number for its size and one for its usage reads back as what was written.
/// What follows the usage is irrelevant as long as whitespace parts it from the usage.
pub proof fn padded_line_reads_back(
    lead: Seq<char>,
    name: Seq<char>,
    gap1: Seq<char>,
    kind: Seq<char>,
    gap2: Seq<char>,
    size: Seq<char>,
    gap3: Seq<char>,
    usage: Seq<char>,
    tail: Seq<char>,
    total_kb: u64,
    used_kb: u64,
)
    requires
        forall|i: int| 0 <= i < lead.len() ==> crate::text::is_space(#[trigger] lead[i]),
        name.len() > 0,
        forall|i: int| 0 <= i < name.len() ==> !crate::text::is_space(#[trigger] name[i]),
        gap1.len() > 0,
        forall|i: int| 0 <= i < gap1.len() ==> crate::text::is_space(#[trigger] gap1[i]),
        kind.len() > 0,
        forall|i: int| 0 <= i < kind.len() ==> !crate::text::is_space(#[trigger] kind[i]),
        gap2.len() > 0,
        forall|i: int| 0 <= i < gap2.len() ==> crate::text::is_space(#[trigger] gap2[i]),
        crate::text::number(size) == Some(total_kb),
        gap3.len() > 0,
        forall|i: int| 0 <= i < gap3.len() ==> crate::text::is_space(#[trigger] gap3[i]),
        crate::text::number(usage) == Some(used_kb),
        tail.len() > 0 ==> crate::text::is_space(tail[0]),
    ensures
        line_entry(
            lead + (name + (gap1 + (kind + (gap2 + (size + (gap3 + (usage + tail))))))),
        ) == Some(SwapEntryView { filename: name, total_kb, used_kb }),
{
    let none = Seq::<char>::empty();
    crate::text::number_is_free_of_whitespace(size);
    crate::text::number_is_free_of_whitespace(usage);
    let d = usage + tail;
    let c = size + (gap3 + d);
    let b = kind + (gap2 + c);
    let a = lead + (name + (gap1 + b));
    if tail.len() == 0 {
        assert(d == usage);
        crate::text::text_without_whitespace_is_one_field(usage);
    } else {
        let rest = tail.skip(1);
        crate::text::padded_word_is_first_field(none, usage, seq![tail[0]], rest);
        assert(none + (usage + (seq![tail[0]] + rest)) == d);
    }
    let f = crate::text::fields(d);
    assert(f.len() >= 1 && f[0] == usage);
    crate::text::padded_word_is_first_field(none, size, gap3, d);
    assert(none + (size + (gap3 + d)) == c);
    crate::text::padded_word_is_first_field(none, kind, gap2, c);
    assert(none + (kind + (gap2 + c)) == b);
    crate::text::padded_word_is_first_field(lead, name, gap1, b);
    assert(crate::text::fields(a) == seq![name] + (seq![kind] + (seq![size] + f)));
    assert(crate::text::fields(a)[0] == name);
    assert(crate::text::fields(a)[2] == size);
    assert(crate::text::fields(a)[3] == usage);
}

/// Each entry counts for its own usage under the weight of its own name, and a further
/// entry adds exactly that.
pub proof fn further_entry_adds_its_weighted_usage(
    entries: Seq<SwapEntryView>,
    entry: SwapEntryView,
    rules: Seq<SwapWeightRule>,
)
    ensures
        crate::sum::sum(weighted_amounts(Seq::<SwapEntryView>::empty(), rules)) == 0,
        weighted_amounts(entries.push(entry), rules) == weighted_amounts(entries, rules).push(
            crate::weight::weighted(
                entry.used_kb,
                crate::config::rule_weight(entry.filename, rules),
            ),
        ),
        crate::sum::sum(weighted_amounts(entries.push(entry), rules)) == crate::sum::sum(
            weighted_amounts(entries, rules),
        ) + crate::weight::weighted(
            entry.used_kb,
            crate::config::rule_weight(entry.filename, rules),
        ),
{
    let amount = crate::weight::weighted(
        entry.used_kb,
        crate::config::rule_weight(entry.filename, rules),
    );
    assert(weighted_amounts(entries.push(entry), rules) =~= weighted_amounts(entries, rules).push(
        amount,
    ));
    crate::sum::further_amount_adds_itself(weighted_amounts(entries, rules), amount);
    assert(weighted_amounts(Seq::<SwapEntryView>::empty(), rules) =~= Seq::<u64>::empty());
}

} // verus!
