//! Plain-text primitives: lines, whitespace-separated fields and decimal numbers.

use vstd::prelude::*;

verus! {

/// Whether `c` has the Unicode property `White_Space`.
pub open spec fn is_space(c: char) -> bool {
    let n = c as int;
    ||| 0x9 <= n <= 0xd
    ||| n == 0x20
    ||| n == 0x85
    ||| n == 0xa0
    ||| n == 0x1680
    ||| 0x2000 <= n <= 0x200a
    ||| n == 0x2028
    ||| n == 0x2029
    ||| n == 0x202f
    ||| n == 0x205f
    ||| n == 0x3000
}

/// Number of leading characters of `s` that are not whitespace.
pub open spec fn word_len(s: Seq<char>) -> nat
    decreases s.len(),
{
    if s.len() == 0 || is_space(s[0]) {
        0
    } else {
        1 + word_len(s.skip(1))
    }
}

/// A leading word lies within the text and ends at the first whitespace character.
pub proof fn lemma_word_len(s: Seq<char>)
    ensures
        word_len(s) <= s.len(),
        forall|i: int| 0 <= i < word_len(s) ==> !is_space(#[trigger] s[i]),
        word_len(s) < s.len() ==> is_space(s[word_len(s) as int]),
        s.len() > 0 && !is_space(s[0]) ==> word_len(s) > 0,
    decreases s.len(),
{
    if s.len() > 0 && !is_space(s[0]) {
        let t = s.skip(1);
        lemma_word_len(t);
        assert forall|i: int| 0 <= i < word_len(s) implies !is_space(#[trigger] s[i]) by {
            if i > 0 {
                assert(s[i] == t[i - 1]);
            }
        }
        if word_len(s) < s.len() {
            assert(s[word_len(s) as int] == t[word_len(t) as int]);
        }
    }
}

/// The length of the leading word is fixed by where it ends.
proof fn lemma_word_len_unique(s: Seq<char>, n: int)
    requires
        0 <= n <= s.len(),
        forall|i: int| 0 <= i < n ==> !is_space(#[trigger] s[i]),
        n < s.len() ==> is_space(s[n]),
    ensures
        word_len(s) == n,
{
    lemma_word_len(s);
    let w = word_len(s) as int;
    if w < n {
        assert(is_space(s[w]));
    } else if n < w {
        assert(!is_space(s[n]));
    }
}

/// The maximal runs of non-whitespace characters in `s`, from left to right.
pub open spec fn fields(s: Seq<char>) -> Seq<Seq<char>>
    decreases s.len(),
{
    if s.len() == 0 {
        Seq::empty()
    } else if is_space(s[0]) {
        fields(s.skip(1))
    } else {
        proof {
            lemma_word_len(s);
        }
        let n = word_len(s) as int;
        seq![s.take(n)] + fields(s.skip(n))
    }
}

/// Number of leading characters of `s` before the first line feed.
pub open spec fn line_len(s: Seq<char>) -> nat
    decreases s.len(),
{
    if s.len() == 0 || s[0] == '\n' {
        0
    } else {
        1 + line_len(s.skip(1))
    }
}

proof fn lemma_line_len(s: Seq<char>)
    ensures
        line_len(s) <= s.len(),
        forall|i: int| 0 <= i < line_len(s) ==> #[trigger] s[i] != '\n',
        line_len(s) < s.len() ==> s[line_len(s) as int] == '\n',
    decreases s.len(),
{
    if s.len() > 0 && s[0] != '\n' {
        let t = s.skip(1);
        lemma_line_len(t);
        assert forall|i: int| 0 <= i < line_len(s) implies #[trigger] s[i] != '\n' by {
            if i > 0 {
                assert(s[i] == t[i - 1]);
            }
        }
        if line_len(s) < s.len() {
            assert(s[line_len(s) as int] == t[line_len(t) as int]);
        }
    }
}

proof fn lemma_line_len_unique(s: Seq<char>, n: int)
    requires
        0 <= n <= s.len(),
        forall|i: int| 0 <= i < n ==> #[trigger] s[i] != '\n',
        n < s.len() ==> s[n] == '\n',
    ensures
        line_len(s) == n,
    decreases s.len(),
{
    if n > 0 {
        let t = s.skip(1);
        assert(s[0] != '\n');
        assert forall|i: int| 0 <= i < n - 1 implies #[trigger] t[i] != '\n' by {
            assert(t[i] == s[i + 1]);
        }
        if n < s.len() {
            assert(t[n - 1] == s[n]);
        }
        lemma_line_len_unique(t, n - 1);
    }
}

/// `s` cut at its line feeds. A text without a line feed is one line; a text that
/// ends in a line feed has an empty last line.
pub open spec fn lines(s: Seq<char>) -> Seq<Seq<char>>
    decreases s.len(),
{
    let n = line_len(s) as int;
    if n >= s.len() {
        seq![s]
    } else {
        seq![s.take(n)] + lines(s.skip(n + 1))
    }
}

/// `s` without its leading and trailing whitespace.
pub open spec fn trim(s: Seq<char>) -> Seq<char>
    decreases s.len(),
{
    if s.len() == 0 {
        s
    } else if is_space(s[0]) {
        trim(s.skip(1))
    } else if is_space(s.last()) {
        trim(s.drop_last())
    } else {
        s
    }
}

/// Whether `c` is an ASCII decimal digit.
pub open spec fn is_digit(c: char) -> bool {
    '0' <= c <= '9'
}

/// Whether every character of `s` is an ASCII decimal digit.
pub open spec fn all_digits(s: Seq<char>) -> bool {
    forall|i: int| 0 <= i < s.len() ==> is_digit(#[trigger] s[i])
}

/// The number that a string of decimal digits stands for.
pub open spec fn digits_value(s: Seq<char>) -> nat
    decreases s.len(),
{
    if s.len() == 0 {
        0
    } else {
        10 * digits_value(s.drop_last()) + (s.last() as int - '0' as int) as nat
    }
}

/// `s` without a leading plus sign.
pub open spec fn unsigned_part(s: Seq<char>) -> Seq<char> {
    if s.len() > 0 && s[0] == '+' {
        s.skip(1)
    } else {
        s
    }
}

/// The 64-bit number written in `s`: an optional plus sign, then one or more
/// decimal digits whose value fits in 64 bits. Any other text is no number.
pub open spec fn number(s: Seq<char>) -> Option<u64> {
    let d = unsigned_part(s);
    if d.len() > 0 && all_digits(d) && digits_value(d) <= u64::MAX {
        Some(digits_value(d) as u64)
    } else {
        None
    }
}

/// The decimal notation of `n`, without leading zeros.
pub open spec fn decimal(n: nat) -> Seq<char>
    decreases n,
{
    let digit = seq![('0' as int + n % 10) as char];
    if n < 10 {
        digit
    } else {
        decimal(n / 10) + digit
    }
}

/// Decimal notation reads back as the number it was made from.
pub proof fn decimal_reads_back(n: u64)
    ensures
        number(decimal(n as nat)) == Some(n),
{
    lemma_decimal_digits(n as nat);
    let s = decimal(n as nat);
    assert(is_digit(s[0]));
    assert(unsigned_part(s) == s);
}

proof fn lemma_decimal_digits(n: nat)
    ensures
        decimal(n).len() > 0,
        all_digits(decimal(n)),
        digits_value(decimal(n)) == n,
    decreases n,
{
    let d = ('0' as int + n % 10) as char;
    assert(is_digit(d));
    if n >= 10 {
        lemma_decimal_digits(n / 10);
        assert(decimal(n).drop_last() == decimal(n / 10));
    } else {
        assert(decimal(n).drop_last() == Seq::<char>::empty());
        reveal_with_fuel(digits_value, 2);
    }
}

/// Whether `s` is a word: at least one character, none of them whitespace.
pub open spec fn is_word(s: Seq<char>) -> bool {
    s.len() > 0 && forall|i: int| 0 <= i < s.len() ==> !is_space(#[trigger] s[i])
}

/// Decimal notation is a word.
pub proof fn decimal_is_a_word(n: u64)
    ensures
        is_word(decimal(n as nat)),
{
    lemma_decimal_digits(n as nat);
    let s = decimal(n as nat);
    assert forall|i: int| 0 <= i < s.len() implies !is_space(#[trigger] s[i]) by {
        assert(is_digit(s[i]));
    }
}

/// A word and the whitespace after it are one field, ahead of the fields that follow.
pub proof fn word_is_first_field(word: Seq<char>, space: char, rest: Seq<char>)
    requires
        is_word(word),
        is_space(space),
    ensures
        fields(word + seq![space] + rest) == seq![word] + fields(rest),
{
    let s = word + seq![space] + rest;
    let n = word.len() as int;
    assert(s[n] == space);
    assert forall|i: int| 0 <= i < n implies !is_space(#[trigger] s[i]) by {
        assert(s[i] == word[i]);
    }
    assert(!is_space(s[0]));
    lemma_word_len_unique(s, n);
    assert(s.take(n) == word);
    let after = s.skip(n);
    assert(after[0] == space);
    assert(after.skip(1) == rest);
    assert(fields(after) == fields(rest));
}

/// Every field is a word.
pub proof fn every_field_is_a_word(s: Seq<char>, i: int)
    requires
        0 <= i < fields(s).len(),
    ensures
        is_word(fields(s)[i]),
    decreases s.len(),
{
    if s.len() > 0 {
        if is_space(s[0]) {
            every_field_is_a_word(s.skip(1), i);
        } else {
            lemma_word_len(s);
            let n = word_len(s) as int;
            if i > 0 {
                assert(fields(s)[i] == fields(s.skip(n))[i - 1]);
                every_field_is_a_word(s.skip(n), i - 1);
            }
        }
    }
}

/// Whitespace at the end of a line, such as a carriage return before the line feed,
/// adds no field and changes none.
pub proof fn trailing_whitespace_adds_no_field(s: Seq<char>, space: char)
    requires
        is_space(space),
    ensures
        fields(s.push(space)) == fields(s),
    decreases s.len(),
{
    let t = s.push(space);
    if s.len() == 0 {
        assert(t.skip(1) == s);
    } else if is_space(s[0]) {
        assert(t.skip(1) == s.skip(1).push(space));
        trailing_whitespace_adds_no_field(s.skip(1), space);
    } else {
        lemma_word_len(s);
        let n = word_len(s) as int;
        assert forall|i: int| 0 <= i < n implies !is_space(#[trigger] t[i]) by {
            assert(t[i] == s[i]);
        }
        assert(is_space(t[n]));
        lemma_word_len_unique(t, n);
        assert(t.take(n) == s.take(n));
        assert(t.skip(n) == s.skip(n).push(space));
        trailing_whitespace_adds_no_field(s.skip(n), space);
    }
}

/// A text without a line feed is its only line.
pub proof fn text_without_line_feed_is_one_line(s: Seq<char>)
    requires
        !s.contains('\n'),
    ensures
        lines(s) == seq![s],
{
    lemma_line_len_unique(s, s.len() as int);
}

/// A line feed ends one line and starts the next.
pub proof fn line_feed_separates_lines(a: Seq<char>, b: Seq<char>)
    ensures
        lines(a + seq!['\n'] + b) == lines(a) + lines(b),
    decreases a.len(),
{
    let s = a + seq!['\n'] + b;
    lemma_line_len(a);
    let n = line_len(a) as int;
    assert forall|i: int| 0 <= i < n implies #[trigger] s[i] != '\n' by {
        assert(s[i] == a[i]);
    }
    assert(s[n] == '\n') by {
        if n < a.len() {
            assert(s[n] == a[n]);
        }
    }
    lemma_line_len_unique(s, n);
    assert(s.take(n) == a.take(n));
    if n < a.len() {
        let rest = a.skip(n + 1);
        line_feed_separates_lines(rest, b);
        assert(s.skip(n + 1) == rest + seq!['\n'] + b);
        assert(lines(s) =~= lines(a) + lines(b));
    } else {
        assert(a.take(n) == a);
        assert(s.skip(n + 1) == b);
    }
}

/// The characters of `s`.
pub fn chars_of(s: &str) -> (r: Vec<char>)
    ensures
        r@ == s@,
{
    let mut r: Vec<char> = Vec::new();
    for c in it: s.chars()
        invariant
            r@ == it.seq().take(it.index() as int),
    {
        r.push(c);
    }
    r
}

/// Whether two strings hold the same characters.
pub fn same_text(a: &str, b: &str) -> (r: bool)
    ensures
        r == (a@ == b@),
{
    let x = chars_of(a);
    let y = chars_of(b);
    if x.len() != y.len() {
        return false;
    }
    let mut i: usize = 0;
    while i < x.len()
        invariant
            0 <= i <= x.len(),
            x.len() == y.len(),
            x@ == a@,
            y@ == b@,
            forall|j: int| 0 <= j < i ==> x[j] == y[j],
        decreases x.len() - i,
    {
        if x[i] != y[i] {
            assert(a@[i as int] != b@[i as int]);
            return false;
        }
        i += 1;
    }
    assert(a@ =~= b@);
    true
}

/// Whether `c` is whitespace.
pub fn is_whitespace(c: char) -> (r: bool)
    ensures
        r == is_space(c),
{
    ('\u{9}' <= c && c <= '\u{d}') || c == '\u{20}' || c == '\u{85}' || c == '\u{a0}' || c
        == '\u{1680}' || ('\u{2000}' <= c && c <= '\u{200a}') || c == '\u{2028}' || c == '\u{2029}'
        || c == '\u{202f}' || c == '\u{205f}' || c == '\u{3000}'
}

/// The pieces of `s` that the index pairs `bounds` delimit.
pub open spec fn pieces(s: Seq<char>, bounds: Seq<(usize, usize)>) -> Seq<Seq<char>> {
    Seq::new(bounds.len(), |i: int| s.subrange(bounds[i].0 as int, bounds[i].1 as int))
}

/// Whether every index pair of `bounds` delimits a piece of a text of `len` characters.
pub open spec fn bounds_within(bounds: Seq<(usize, usize)>, len: int) -> bool {
    forall|i: int|
        0 <= i < bounds.len() ==> (#[trigger] bounds[i]).0 <= bounds[i].1 && bounds[i].1 <= len
}

/// Where the lines of `s` begin and end.
pub fn line_bounds(s: &Vec<char>) -> (r: Vec<(usize, usize)>)
    ensures
        bounds_within(r@, s@.len() as int),
        pieces(s@, r@) == lines(s@),
{
    let mut r: Vec<(usize, usize)> = Vec::new();
    let mut start: usize = 0;
    let mut i: usize = 0;
    assert(s@.skip(0) == s@);
    assert(pieces(s@, r@) == Seq::<Seq<char>>::empty());
    while i < s.len()
        invariant
            start <= i <= s.len(),
            bounds_within(r@, s@.len() as int),
            forall|j: int| start <= j < i ==> #[trigger] s[j] != '\n',
            pieces(s@, r@) + lines(s@.skip(start as int)) == lines(s@),
        decreases s.len() - i,
    {
        if s[i] == '\n' {
            proof {
                let rest = s@.skip(start as int);
                let n = i - start;
                assert(rest[n] == '\n');
                assert forall|j: int| 0 <= j < n implies #[trigger] rest[j] != '\n' by {
                    assert(rest[j] == s[start + j]);
                }
                lemma_line_len_unique(rest, n);
                assert(rest.take(n) == s@.subrange(start as int, i as int));
                assert(rest.skip(n + 1) == s@.skip(i + 1));
                let b = (start, i);
                assert(pieces(s@, r@.push(b)) == pieces(s@, r@).push(rest.take(n)));
                assert(pieces(s@, r@.push(b)) + lines(s@.skip(i + 1)) == pieces(s@, r@) + lines(
                    rest,
                ));
            }
            r.push((start, i));
            start = i + 1;
        }
        i += 1;
    }
    proof {
        let rest = s@.skip(start as int);
        let n = s.len() - start;
        assert forall|j: int| 0 <= j < n implies #[trigger] rest[j] != '\n' by {
            assert(rest[j] == s[start + j]);
        }
        lemma_line_len_unique(rest, n);
        assert(rest == s@.subrange(start as int, s@.len() as int));
        let b = (start, s@.len() as usize);
        assert(pieces(s@, r@.push(b)) == pieces(s@, r@).push(rest));
        assert(pieces(s@, r@).push(rest) == pieces(s@, r@) + seq![rest]);
    }
    r.push((start, s.len()));
    r
}

/// Where the fields of `s[from..to]` begin and end.
pub fn field_bounds(s: &Vec<char>, from: usize, to: usize) -> (r: Vec<(usize, usize)>)
    requires
        from <= to <= s@.len(),
    ensures
        bounds_within(r@, s@.len() as int),
        pieces(s@, r@) == fields(s@.subrange(from as int, to as int)),
{
    let mut r: Vec<(usize, usize)> = Vec::new();
    let mut i: usize = from;
    assert(pieces(s@, r@) == Seq::<Seq<char>>::empty());
    while i < to
        invariant
            from <= i <= to <= s.len(),
            bounds_within(r@, s@.len() as int),
            pieces(s@, r@) + fields(s@.subrange(i as int, to as int)) == fields(
                s@.subrange(from as int, to as int),
            ),
        decreases to - i,
    {
        let ghost rest = s@.subrange(i as int, to as int);
        assert(rest[0] == s[i as int]);
        if is_whitespace(s[i]) {
            assert(rest.skip(1) == s@.subrange(i + 1, to as int));
            i += 1;
        } else {
            let start = i;
            while i < to && !is_whitespace(s[i])
                invariant
                    start <= i <= to <= s.len(),
                    forall|j: int| start <= j < i ==> !is_space(#[trigger] s[j]),
                decreases to - i,
            {
                i += 1;
            }
            proof {
                let n = i - start;
                assert forall|j: int| 0 <= j < n implies !is_space(#[trigger] rest[j]) by {
                    assert(rest[j] == s[start + j]);
                }
                if n < rest.len() {
                    assert(rest[n] == s[i as int]);
                }
                lemma_word_len_unique(rest, n);
                lemma_word_len(rest);
                assert(rest.take(n) == s@.subrange(start as int, i as int));
                assert(rest.skip(n) == s@.subrange(i as int, to as int));
                let b = (start, i);
                assert(pieces(s@, r@.push(b)) == pieces(s@, r@).push(rest.take(n)));
                assert(pieces(s@, r@.push(b)) + fields(rest.skip(n)) == pieces(s@, r@) + fields(
                    rest,
                ));
            }
            r.push((start, i));
        }
    }
    assert(s@.subrange(i as int, to as int).len() == 0);
    r
}

/// Where `s` begins and ends once the whitespace around it is left out.
pub fn trimmed_bounds(s: &Vec<char>) -> (r: (usize, usize))
    ensures
        r.0 <= r.1 <= s@.len(),
        s@.subrange(r.0 as int, r.1 as int) == trim(s@),
{
    let mut from: usize = 0;
    let mut to: usize = s.len();
    assert(s@.subrange(0, s@.len() as int) == s@);
    while from < to && is_whitespace(s[from])
        invariant
            from <= to == s.len(),
            trim(s@.subrange(from as int, to as int)) == trim(s@),
        decreases to - from,
    {
        assert(s@.subrange(from as int, to as int).skip(1) == s@.subrange(from + 1, to as int));
        from += 1;
    }
    while from < to && is_whitespace(s[to - 1])
        invariant
            from <= to <= s.len(),
            from < to ==> !is_space(s[from as int]),
            trim(s@.subrange(from as int, to as int)) == trim(s@),
        decreases to - from,
    {
        assert(s@.subrange(from as int, to as int).drop_last() == s@.subrange(
            from as int,
            to - 1,
        ));
        to -= 1;
    }
    (from, to)
}

/// More digits never make the number smaller.
proof fn lemma_digits_value_grows(s: Seq<char>, n: int)
    requires
        0 <= n <= s.len(),
        all_digits(s),
    ensures
        digits_value(s.take(n)) <= digits_value(s),
    decreases s.len() - n,
{
    if n < s.len() {
        lemma_digits_value_grows(s, n + 1);
        assert(s.take(n + 1).drop_last() == s.take(n));
        assert(is_digit(s[n]));
    } else {
        assert(s.take(n) == s);
    }
}

/// The number written in `s[from..to]`, if that is one.
pub fn parse_number(s: &Vec<char>, from: usize, to: usize) -> (r: Option<u64>)
    requires
        from <= to <= s@.len(),
    ensures
        r == number(s@.subrange(from as int, to as int)),
{
    let ghost all = s@.subrange(from as int, to as int);
    let start: usize = if from < to && s[from] == '+' {
        from + 1
    } else {
        from
    };
    let ghost d = s@.subrange(start as int, to as int);
    proof {
        if start > from {
            assert(all[0] == '+');
            assert(all.skip(1) == d);
        } else if from < to {
            assert(all[0] == s[from as int]);
        }
        assert(unsigned_part(all) == d);
    }
    if start == to {
        return None;
    }
    let mut value: u64 = 0;
    let mut i: usize = start;
    assert(d.take(0) == Seq::<char>::empty());
    while i < to
        invariant
            start <= i <= to <= s.len(),
            d == s@.subrange(start as int, to as int),
            d.len() > 0,
            unsigned_part(all) == d,
            all == s@.subrange(from as int, to as int),
            all_digits(d.take(i - start)),
            value == digits_value(d.take(i - start)),
        decreases to - i,
    {
        let c = s[i];
        let ghost k = i - start;
        assert(d[k] == c);
        if c < '0' || c > '9' {
            assert(!is_digit(d[k]));
            return None;
        }
        let digit: u128 = (c as u32 - '0' as u32) as u128;
        let next: u128 = 10 * (value as u128) + digit;
        proof {
            assert(d.take(k + 1).drop_last() == d.take(k));
            assert forall|j: int| 0 <= j < k + 1 implies is_digit(#[trigger] d.take(k + 1)[j]) by {
                if j < k {
                    assert(is_digit(d.take(k)[j]));
                }
            }
        }
        if next > u64::MAX as u128 {
            proof {
                if all_digits(d) {
                    lemma_digits_value_grows(d, k + 1);
                }
            }
            return None;
        }
        value = next as u64;
        i += 1;
    }
    assert(d.take(to - start) == d);
    Some(value)
}

/// The number written in `s`, if that is one.
pub fn parse_u64(s: &str) -> (r: Option<u64>)
    ensures
        r == number(s@),
{
    let chars = chars_of(s);
    assert(chars@.subrange(0, chars@.len() as int) == s@);
    parse_number(&chars, 0, chars.len())
}

fn digit_text(d: u64) -> (r: &'static str)
    requires
        d < 10,
    ensures
        r@ == seq![('0' as int + d) as char],
{
    proof {
        reveal_strlit("0");
        reveal_strlit("1");
        reveal_strlit("2");
        reveal_strlit("3");
        reveal_strlit("4");
        reveal_strlit("5");
        reveal_strlit("6");
        reveal_strlit("7");
        reveal_strlit("8");
        reveal_strlit("9");
    }
    let r = match d {
        0 => "0",
        1 => "1",
        2 => "2",
        3 => "3",
        4 => "4",
        5 => "5",
        6 => "6",
        7 => "7",
        8 => "8",
        _ => "9",
    };
    assert(r@ =~= seq![('0' as int + d) as char]);
    r
}

/// `n` in decimal notation.
pub fn to_decimal(n: u64) -> (r: String)
    ensures
        r@ == decimal(n as nat),
    decreases n,
{
    let mut r = if n < 10 {
        String::new()
    } else {
        to_decimal(n / 10)
    };
    r.append(digit_text(n % 10));
    assert(r@ =~= decimal(n as nat));
    r
}

/// Whitespace is made up of these code points and no others.
pub proof fn whitespace_code_points(c: char)
    ensures
        is_space(c) <==> (c as u32 >= 9 && c as u32 <= 13) || c as u32 == 32 || c as u32 == 133
            || c as u32 == 160 || c as u32 == 5760 || (c as u32 >= 8192 && c as u32 <= 8202)
            || c as u32 == 8232 || c as u32 == 8233 || c as u32 == 8239 || c as u32 == 8287
            || c as u32 == 12288,
{
}

/// Whitespace ahead of a text adds no field and changes none.
pub proof fn leading_whitespace_adds_no_field(pad: Seq<char>, s: Seq<char>)
    requires
        forall|i: int| 0 <= i < pad.len() ==> is_space(#[trigger] pad[i]),
    ensures
        fields(pad + s) == fields(s),
    decreases pad.len(),
{
    if pad.len() == 0 {
        assert(pad + s == s);
    } else {
        let rest = pad.skip(1);
        assert((pad + s)[0] == pad[0]);
        assert(is_space(pad[0]));
        assert((pad + s).skip(1) == rest + s);
        assert forall|i: int| 0 <= i < rest.len() implies is_space(#[trigger] rest[i]) by {
            assert(rest[i] == pad[i + 1]);
        }
        leading_whitespace_adds_no_field(rest, s);
    }
}

/// A word with any whitespace before it, and any whitespace, but some, after it, is the
/// first field; the fields of what follows come next.
pub proof fn padded_word_is_first_field(
    lead: Seq<char>,
    word: Seq<char>,
    gap: Seq<char>,
    rest: Seq<char>,
)
    requires
        forall|i: int| 0 <= i < lead.len() ==> is_space(#[trigger] lead[i]),
        word.len() > 0,
        forall|i: int| 0 <= i < word.len() ==> !is_space(#[trigger] word[i]),
        gap.len() > 0,
        forall|i: int| 0 <= i < gap.len() ==> is_space(#[trigger] gap[i]),
    ensures
        fields(lead + (word + (gap + rest))) == seq![word] + fields(rest),
{
    leading_whitespace_adds_no_field(lead, word + (gap + rest));
    let more = gap.skip(1);
    assert forall|i: int| 0 <= i < more.len() implies is_space(#[trigger] more[i]) by {
        assert(more[i] == gap[i + 1]);
    }
    assert(is_space(gap[0]));
    leading_whitespace_adds_no_field(more, rest);
    word_is_first_field(word, gap[0], more + rest);
    assert(word + (gap + rest) == word + seq![gap[0]] + (more + rest));
}

/// A text without whitespace is its only field, unless it is empty: then it has none.
pub proof fn text_without_whitespace_is_one_field(s: Seq<char>)
    requires
        forall|i: int| 0 <= i < s.len() ==> !is_space(#[trigger] s[i]),
    ensures
        s.len() > 0 ==> fields(s) == seq![s],
        s.len() == 0 ==> fields(s) == Seq::<Seq<char>>::empty(),
{
    if s.len() > 0 {
        assert(!is_space(s[0]));
        lemma_word_len_unique(s, s.len() as int);
        assert(s.take(s.len() as int) == s);
        assert(fields(s.skip(s.len() as int)) == Seq::<Seq<char>>::empty());
        assert(fields(s) =~= seq![s]);
    }
}

/// What is left when whitespace is taken off both ends: a text that neither starts nor
/// ends in whitespace is found again whatever whitespace is put around it.
pub proof fn trimming_takes_whitespace_off_both_ends(
    lead: Seq<char>,
    core: Seq<char>,
    trail: Seq<char>,
)
    requires
        forall|i: int| 0 <= i < lead.len() ==> is_space(#[trigger] lead[i]),
        forall|i: int| 0 <= i < trail.len() ==> is_space(#[trigger] trail[i]),
        core.len() > 0 ==> !is_space(core[0]) && !is_space(core[core.len() - 1]),
    ensures
        trim(lead + core + trail) == core,
    decreases lead.len() + trail.len(), trail.len(),
{
    let s = lead + core + trail;
    if lead.len() > 0 {
        let rest = lead.skip(1);
        assert(s[0] == lead[0]);
        assert(is_space(lead[0]));
        assert forall|i: int| 0 <= i < rest.len() implies is_space(#[trigger] rest[i]) by {
            assert(rest[i] == lead[i + 1]);
        }
        assert(s.skip(1) == rest + core + trail);
        trimming_takes_whitespace_off_both_ends(rest, core, trail);
    } else if trail.len() > 0 {
        if core.len() > 0 {
            assert(s[0] == core[0]);
            assert(s.last() == trail[trail.len() - 1]);
            let rest = trail.drop_last();
            assert forall|i: int| 0 <= i < rest.len() implies is_space(#[trigger] rest[i]) by {
                assert(rest[i] == trail[i]);
            }
            assert(s.drop_last() == lead + core + rest);
            trimming_takes_whitespace_off_both_ends(lead, core, rest);
        } else {
            assert(s == trail + core + lead);
            trimming_takes_whitespace_off_both_ends(trail, core, lead);
        }
    } else {
        assert(s == core);
    }
}

/// A single digit is the number it shows.
pub proof fn one_digit_is_its_number(c: char)
    requires
        '0' <= c <= '9',
    ensures
        number(seq![c]) == Some((c as u32 - 48) as u64),
{
    let s = seq![c];
    assert(s.drop_last() == Seq::<char>::empty());
    reveal_with_fuel(digits_value, 2);
    assert(all_digits(s));
}

/// A further digit multiplies a number by ten and adds to it, as long as the result fits
/// in 64 bits; digits that do not fit are no number, whatever digits follow.
pub proof fn further_digit_counts_tenfold(s: Seq<char>, c: char)
    requires
        s.len() > 0,
        forall|i: int| 0 <= i < s.len() ==> '0' <= #[trigger] s[i] && s[i] <= '9',
        '0' <= c <= '9',
    ensures
        match number(s) {
            Some(v) => number(s.push(c)) == if 10 * v + (c as u32 - 48)
                <= 18_446_744_073_709_551_615 {
                Some((10 * v + (c as u32 - 48)) as u64)
            } else {
                None
            },
            None => number(s.push(c)) is None,
        },
{
    let t = s.push(c);
    assert('0' <= s[0] && s[0] <= '9');
    assert(t[0] == s[0]);
    assert(all_digits(s));
    assert(all_digits(t));
    assert(t.drop_last() == s);
}

/// One plus sign ahead of a text changes nothing about its being a number.
pub proof fn plus_sign_is_optional(s: Seq<char>)
    requires
        s.len() == 0 || s[0] != '+',
    ensures
        number(seq!['+'] + s) == number(s),
{
    assert((seq!['+'] + s).skip(1) == s);
}

/// A text that holds anything but digits, a leading plus sign aside, is no number, and
/// neither is an empty one.
pub proof fn other_text_is_no_number(s: Seq<char>, i: int)
    requires
        s.len() == 0 || (0 <= i < s.len() && (s[i] < '0' || s[i] > '9') && (i > 0 || s[0] != '+')),
    ensures
        number(s) is None,
{
    if s.len() > 0 {
        let d = unsigned_part(s);
        if s[0] == '+' {
            assert(d[i - 1] == s[i]);
            assert(!is_digit(d[i - 1]));
        } else {
            assert(!is_digit(d[i]));
        }
    }
}

/// Decimal notation is made of digits, starts with a zero only where it is the single
/// digit zero, and reads back as its number.
pub proof fn decimal_is_canonical(n: u64)
    ensures
        decimal(n as nat).len() > 0,
        forall|i: int|
            0 <= i < decimal(n as nat).len() ==> '0' <= #[trigger] decimal(n as nat)[i]
                && decimal(n as nat)[i] <= '9',
        decimal(n as nat)[0] == '0' <==> n == 0,
        n == 0 ==> decimal(n as nat).len() == 1,
        number(decimal(n as nat)) == Some(n),
{
    lemma_decimal_digits(n as nat);
    lemma_decimal_first_digit(n as nat);
    decimal_reads_back(n);
    let s = decimal(n as nat);
    assert forall|i: int| 0 <= i < s.len() implies '0' <= #[trigger] s[i] && s[i] <= '9' by {
        assert(is_digit(s[i]));
    }
}

proof fn lemma_decimal_first_digit(n: nat)
    ensures
        decimal(n).len() > 0,
        decimal(n)[0] == '0' <==> n == 0,
    decreases n,
{
    if n >= 10 {
        lemma_decimal_first_digit(n / 10);
        assert(decimal(n)[0] == decimal(n / 10)[0]);
    } else {
        let d = ('0' as int + n % 10) as char;
        assert(decimal(n)[0] == d);
    }
}

/// A text that is a number is free of whitespace.
pub proof fn number_is_free_of_whitespace(s: Seq<char>)
    requires
        number(s) is Some,
    ensures
        s.len() > 0,
        forall|i: int| 0 <= i < s.len() ==> !is_space(#[trigger] s[i]),
{
    assert forall|i: int| 0 <= i < s.len() implies !is_space(#[trigger] s[i]) by {
        if (s[i] < '0' || s[i] > '9') && (i > 0 || s[0] != '+') {
            other_text_is_no_number(s, i);
        }
    }
}

} // verus!
