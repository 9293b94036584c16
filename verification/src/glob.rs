//! Shell-style glob matching.
//!
//! Only `*` (any sequence of characters, including none) and `?` (exactly one
//! character) are special. Character classes, brace expansion and escapes are not
//! interpreted, and a directory separator is a character like any other.

use crate::text::chars_of;
use vstd::prelude::*;
use vstd::slice::slice_subrange;

verus! {

/// Whether `pattern` describes the whole of `name`.
pub open spec fn pattern_matches(pattern: Seq<char>, name: Seq<char>) -> bool
    decreases pattern.len(),
{
    if pattern.len() == 0 {
        name.len() == 0
    } else if pattern[0] == '*' {
        exists|k: int|
            0 <= k <= name.len() && pattern_matches(pattern.skip(1), #[trigger] name.skip(k))
    } else {
        &&& name.len() > 0
        &&& pattern[0] == '?' || pattern[0] == name[0]
        &&& pattern_matches(pattern.skip(1), name.skip(1))
    }
}

/// Whether `pattern` holds neither `*` nor `?`.
pub open spec fn is_literal(pattern: Seq<char>) -> bool {
    forall|i: int| 0 <= i < pattern.len() ==> #[trigger] pattern[i] != '*' && pattern[i] != '?'
}

/// A star either stands for nothing, or takes one character and goes on.
proof fn lemma_star_step(pattern: Seq<char>, name: Seq<char>)
    requires
        pattern.len() > 0,
        pattern[0] == '*',
    ensures
        pattern_matches(pattern, name) <==> {
            ||| pattern_matches(pattern.skip(1), name)
            ||| name.len() > 0 && pattern_matches(pattern, name.skip(1))
        },
{
    let rest = pattern.skip(1);
    assert(name.skip(0) == name);
    if pattern_matches(pattern, name) {
        let k = choose|k: int|
            0 <= k <= name.len() && pattern_matches(rest, #[trigger] name.skip(k));
        if k > 0 {
            assert(name.skip(1).skip(k - 1) == name.skip(k));
            assert(pattern_matches(rest, name.skip(1).skip(k - 1)));
        }
    }
    if name.len() > 0 && pattern_matches(pattern, name.skip(1)) {
        let k = choose|k: int|
            0 <= k <= name.skip(1).len() && pattern_matches(
                rest,
                #[trigger] name.skip(1).skip(k),
            );
        assert(name.skip(1).skip(k) == name.skip(k + 1));
        assert(pattern_matches(rest, name.skip(k + 1)));
    }
    if pattern_matches(rest, name) {
        assert(pattern_matches(rest, name.skip(0)));
    }
}

/// A lone `*` matches every name.
pub proof fn star_matches_everything(name: Seq<char>)
    ensures
        pattern_matches(seq!['*'], name),
{
    let n = name.len() as int;
    assert(seq!['*'].skip(1) == Seq::<char>::empty());
    assert(pattern_matches(seq!['*'].skip(1), name.skip(n)));
}

/// A lone `?` matches exactly the names of one character.
pub proof fn question_matches_one_char(name: Seq<char>)
    ensures
        pattern_matches(seq!['?'], name) <==> name.len() == 1,
{
    assert(seq!['?'].skip(1) == Seq::<char>::empty());
    if name.len() > 0 {
        assert(pattern_matches(seq!['?'].skip(1), name.skip(1)) <==> name.skip(1).len() == 0);
    }
}

/// A pattern without wildcards matches itself and nothing else.
pub proof fn literal_matches_itself_only(pattern: Seq<char>, name: Seq<char>)
    requires
        is_literal(pattern),
    ensures
        pattern_matches(pattern, name) <==> pattern == name,
    decreases pattern.len(),
{
    if pattern.len() == 0 {
        assert(name.len() == 0 ==> pattern == name);
    } else {
        let rest = pattern.skip(1);
        assert(pattern[0] != '*' && pattern[0] != '?');
        assert forall|i: int| 0 <= i < rest.len() implies #[trigger] rest[i] != '*' && rest[i]
            != '?' by {
            assert(rest[i] == pattern[i + 1]);
        }
        if name.len() > 0 {
            literal_matches_itself_only(rest, name.skip(1));
            assert(pattern == seq![pattern[0]] + rest);
            assert(name == seq![name[0]] + name.skip(1));
        }
    }
}

/// Two patterns in a row match a name exactly if the name can be cut in two so that
/// each pattern matches its part.
pub proof fn concatenation_splits_name(p: Seq<char>, q: Seq<char>, name: Seq<char>)
    ensures
        pattern_matches(p + q, name) <==> exists|k: int|
            0 <= k <= name.len() && #[trigger] pattern_matches(p, name.take(k))
                && pattern_matches(q, name.skip(k)),
    decreases p.len(),
{
    let whole = p + q;
    if p.len() == 0 {
        assert(whole == q);
        assert(name.skip(0) == name);
        if pattern_matches(q, name) {
            assert(pattern_matches(p, name.take(0)));
        }
    } else {
        let rest = p.skip(1);
        assert(whole.skip(1) == rest + q);
        if p[0] == '*' {
            if pattern_matches(whole, name) {
                let j = choose|j: int|
                    0 <= j <= name.len() && pattern_matches(
                        whole.skip(1),
                        #[trigger] name.skip(j),
                    );
                let tail = name.skip(j);
                concatenation_splits_name(rest, q, tail);
                let k = choose|k: int|
                    0 <= k <= tail.len() && #[trigger] pattern_matches(rest, tail.take(k))
                        && pattern_matches(q, tail.skip(k));
                assert(tail.take(k) == name.take(j + k).skip(j));
                assert(tail.skip(k) == name.skip(j + k));
                assert(pattern_matches(rest, name.take(j + k).skip(j)));
                assert(pattern_matches(p, name.take(j + k)));
            }
            assert forall|k: int|
                0 <= k <= name.len() && #[trigger] pattern_matches(p, name.take(k))
                    && pattern_matches(q, name.skip(k)) implies pattern_matches(whole, name) by {
                let j = choose|j: int|
                    0 <= j <= name.take(k).len() && pattern_matches(
                        rest,
                        #[trigger] name.take(k).skip(j),
                    );
                let tail = name.skip(j);
                concatenation_splits_name(rest, q, tail);
                assert(tail.take(k - j) == name.take(k).skip(j));
                assert(tail.skip(k - j) == name.skip(k));
                assert(pattern_matches(rest, tail.take(k - j)));
                assert(pattern_matches(whole.skip(1), name.skip(j)));
            }
        } else if name.len() > 0 {
            let tail = name.skip(1);
            concatenation_splits_name(rest, q, tail);
            if pattern_matches(whole, name) {
                let k = choose|k: int|
                    0 <= k <= tail.len() && #[trigger] pattern_matches(rest, tail.take(k))
                        && pattern_matches(q, tail.skip(k));
                assert(tail.take(k) == name.take(k + 1).skip(1));
                assert(tail.skip(k) == name.skip(k + 1));
                assert(pattern_matches(p, name.take(k + 1)));
            }
            assert forall|k: int|
                0 <= k <= name.len() && #[trigger] pattern_matches(p, name.take(k))
                    && pattern_matches(q, name.skip(k)) implies pattern_matches(whole, name) by {
                assert(name.take(k).len() > 0);
                assert(name.take(k)[0] == name[0]);
                assert(name.take(k).skip(1) == tail.take(k - 1));
                assert(name.skip(k) == tail.skip(k - 1));
                assert(pattern_matches(rest, tail.take(k - 1)));
            }
        } else {
            assert forall|k: int|
                0 <= k <= name.len() && #[trigger] pattern_matches(
                    p,
                    name.take(k),
                ) implies false by {
                assert(name.take(k).len() == 0);
            }
        }
    }
}

/// Patterns that match two names match, joined, the names joined.
pub proof fn joined_patterns_match_joined_names(
    p: Seq<char>,
    q: Seq<char>,
    first: Seq<char>,
    second: Seq<char>,
)
    requires
        pattern_matches(p, first),
        pattern_matches(q, second),
    ensures
        pattern_matches(p + q, first + second),
{
    let name = first + second;
    let k = first.len() as int;
    concatenation_splits_name(p, q, name);
    assert(name.take(k) == first);
    assert(name.skip(k) == second);
    assert(pattern_matches(p, name.take(k)));
}

/// A leading `*` takes any part of the name, none and all of it included, and leaves the
/// rest to the rest of the pattern.
pub proof fn leading_star_takes_any_prefix(rest: Seq<char>, name: Seq<char>)
    ensures
        pattern_matches(seq!['*'] + rest, name) <==> exists|k: int|
            0 <= k <= name.len() && pattern_matches(rest, #[trigger] name.skip(k)),
{
    assert((seq!['*'] + rest).skip(1) == rest);
}

/// If whatever `a` matches is matched by `b` too, then `b` in place of `a` within a
/// pattern matches no less.
proof fn lemma_wider_part_matches_no_less(
    p: Seq<char>,
    a: Seq<char>,
    b: Seq<char>,
    q: Seq<char>,
    name: Seq<char>,
)
    requires
        forall|s: Seq<char>| pattern_matches(a, s) ==> #[trigger] pattern_matches(b, s),
        pattern_matches(p + a + q, name),
    ensures
        pattern_matches(p + b + q, name),
{
    assert(p + a + q == p + (a + q));
    assert(p + b + q == p + (b + q));
    concatenation_splits_name(p, a + q, name);
    concatenation_splits_name(p, b + q, name);
    let k = choose|k: int|
        0 <= k <= name.len() && #[trigger] pattern_matches(p, name.take(k)) && pattern_matches(
            a + q,
            name.skip(k),
        );
    let tail = name.skip(k);
    concatenation_splits_name(a, q, tail);
    let j = choose|j: int|
        0 <= j <= tail.len() && #[trigger] pattern_matches(a, tail.take(j)) && pattern_matches(
            q,
            tail.skip(j),
        );
    concatenation_splits_name(b, q, tail);
    assert(pattern_matches(b, tail.take(j)));
    assert(pattern_matches(b + q, tail));
    assert(pattern_matches(p, name.take(k)));
}

/// Two stars in a row match what one star does.
pub proof fn doubled_star_is_one_star(p: Seq<char>, q: Seq<char>, name: Seq<char>)
    ensures
        pattern_matches(p + seq!['*', '*'] + q, name) == pattern_matches(
            p + seq!['*'] + q,
            name,
        ),
{
    let one = seq!['*'];
    let two = seq!['*', '*'];
    assert forall|s: Seq<char>| #[trigger] pattern_matches(one, s) && #[trigger] pattern_matches(
        two,
        s,
    ) by {
        star_matches_everything(s);
        assert(two == one + one);
        leading_star_takes_any_prefix(one, s);
        assert(s.skip(0) == s);
    }
    if pattern_matches(p + two + q, name) {
        lemma_wider_part_matches_no_less(p, two, one, q, name);
    }
    if pattern_matches(p + one + q, name) {
        lemma_wider_part_matches_no_less(p, one, two, q, name);
    }
}

/// A wildcard in place of a single character, or of a `?`, matches no less.
pub proof fn wildcard_matches_no_less(p: Seq<char>, c: char, q: Seq<char>, name: Seq<char>)
    requires
        c != '*',
        pattern_matches(p + seq![c] + q, name),
    ensures
        pattern_matches(p + seq!['?'] + q, name),
        pattern_matches(p + seq!['*'] + q, name),
{
    let one = seq![c];
    assert(one.skip(1) == Seq::<char>::empty());
    assert forall|s: Seq<char>| pattern_matches(one, s) implies #[trigger] pattern_matches(
        seq!['?'],
        s,
    ) by {
        assert(pattern_matches(one.skip(1), s.skip(1)));
        question_matches_one_char(s);
    }
    assert forall|s: Seq<char>| pattern_matches(one, s) implies #[trigger] pattern_matches(
        seq!['*'],
        s,
    ) by {
        star_matches_everything(s);
    }
    lemma_wider_part_matches_no_less(p, one, seq!['?'], q, name);
    lemma_wider_part_matches_no_less(p, one, seq!['*'], q, name);
}

/// A literal followed by `*` matches exactly the names that start with the literal.
pub proof fn literal_then_star_matches_prefix(prefix: Seq<char>, name: Seq<char>)
    requires
        is_literal(prefix),
    ensures
        pattern_matches(prefix + seq!['*'], name) <==> prefix.is_prefix_of(name),
{
    concatenation_splits_name(prefix, seq!['*'], name);
    assert forall|k: int| 0 <= k <= name.len() implies (#[trigger] pattern_matches(
        prefix,
        name.take(k),
    ) <==> prefix == name.take(k)) by {
        literal_matches_itself_only(prefix, name.take(k));
    }
    if prefix.is_prefix_of(name) {
        let k = prefix.len() as int;
        assert(prefix == name.take(k));
        assert(pattern_matches(prefix, name.take(k)));
        star_matches_everything(name.skip(k));
    }
}

/// Match a shell-style glob pattern against a string.
///
/// Supported wildcards: `*` (any sequence of chars, including none), `?`
/// (exactly one char). Matching is case-sensitive.
pub fn glob_matches(pattern: &str, name: &str) -> (r: bool)
    ensures
        r == pattern_matches(pattern@, name@),
{
    let p = chars_of(pattern);
    let s = chars_of(name);
    glob_impl(p.as_slice(), s.as_slice())
}

/// Match a glob pattern against a name, both as characters.
pub fn glob_impl(pat: &[char], s: &[char]) -> (r: bool)
    ensures
        r == pattern_matches(pat@, s@),
    decreases pat@.len() + s@.len(),
{
    if pat.len() == 0 {
        return s.len() == 0;
    }
    let rest_pat = slice_subrange(pat, 1, pat.len());
    assert(rest_pat@ == pat@.skip(1));
    if pat[0] == '*' {
        proof {
            lemma_star_step(pat@, s@);
        }
        if glob_impl(rest_pat, s) {
            return true;
        }
        if s.len() == 0 {
            return false;
        }
        let rest_s = slice_subrange(s, 1, s.len());
        assert(rest_s@ == s@.skip(1));
        return glob_impl(pat, rest_s);
    }
    if s.len() == 0 {
        return false;
    }
    let rest_s = slice_subrange(s, 1, s.len());
    assert(rest_s@ == s@.skip(1));
    (pat[0] == '?' || pat[0] == s[0]) && glob_impl(rest_pat, rest_s)
}

/// What a pattern of one character matches: every name if it is `*`, the names of one
/// character if it is `?`, and otherwise, whatever character it is, itself alone. The empty
/// pattern matches the empty name alone.
pub proof fn one_character_patterns(c: char, name: Seq<char>)
    ensures
        pattern_matches(Seq::<char>::empty(), name) <==> name.len() == 0,
        pattern_matches(seq![c], name) <==> (c == '*' || (name.len() == 1 && (c == '?' || name[0]
            == c))),
{
    if c == '*' {
        star_matches_everything(name);
    } else if c == '?' {
        question_matches_one_char(name);
    } else {
        literal_matches_itself_only(seq![c], name);
        if name.len() == 1 && name[0] == c {
            assert(name == seq![c]);
        }
    }
}

} // verus!
