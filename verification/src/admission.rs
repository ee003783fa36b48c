//! Which glob expressions are handed to the glob compiler.
//!
//! `wax` does not return on every expression. It stops the program
//!
//! - where the count of a repetition, multiplied with the size of what is
//!   repeated, does not fit the machine's word;
//! - where a bound of a repetition is beyond what `regex` takes as a count;
//! - where alternatives and repetitions nest deeper than `regex` parses.
//!
//! Where repetitions nest in repetitions its work grows about threefold with
//! every level, and where the text that an expression can stand for reaches a
//! size limit, its verdict follows the case rules of the platform.
//!
//! [`admitted`] is a test on the text of an expression that leaves these
//! expressions out. It measures the text from above, so it also leaves out
//! some expressions that `wax` would build; the doc comment of [`admitted`]
//! says which.

use vstd::prelude::*;
use crate::text::{chars_of, digit_value, digits_value, is_digit};

verus! {

/// The size that no text repeated by an expression may reach: the limit that
/// `wax` sets to the text an expression always stands for.
pub const SIZE_LIMIT: u64 = 65536;

/// The bytes that `wax` counts for one character at most.
pub const BYTES_PER_CHAR: u64 = 4;

/// The first length, in characters, at which an expression weighs too much
/// even if it repeats nothing.
pub const LENGTH_LIMIT: usize = 16384;

/// The first number that is too large for the bound of a repetition.
pub const COUNT_LIMIT: u64 = 4294967296;

/// The deepest nesting of alternatives and repetitions that is admitted.
/// `regex` parses 250 levels. Every level of a glob takes four of them, what
/// stands innermost up to six, and the whole expression one: at 60 levels
/// that makes 247.
pub const MAX_NESTING: usize = 60;

/// The deepest nesting of repetitions in repetitions that is admitted.
pub const MAX_REPETITION_NESTING: usize = 4;

/// Where the run of digits that begins at `from` ends: the position of the
/// first character from there on that is no digit.
pub open spec fn run_end(e: Seq<char>, from: int) -> int
    decreases e.len() - from,
{
    if 0 <= from < e.len() && is_digit(e[from]) {
        run_end(e, from + 1)
    } else {
        from
    }
}

/// The number written by the run of digits that begins at `from`; 0 where no
/// digit stands there.
pub open spec fn number_at(e: Seq<char>, from: int) -> nat {
    digits_value(e.subrange(from, run_end(e, from)))
}

/// Whether a number begins at `at` directly after a colon. Every lower bound
/// of a repetition does.
pub open spec fn lower_bound_at(e: Seq<char>, at: int) -> bool {
    0 < at < e.len() && e[at - 1] == ':' && is_digit(e[at])
}

/// How often the lower bound at `at` repeats a text: the number there, or
/// once where the number is 0 or no lower bound stands there.
pub open spec fn factor_at(e: Seq<char>, at: int) -> nat {
    if lower_bound_at(e, at) && number_at(e, at) > 1 {
        number_at(e, at)
    } else {
        1
    }
}

/// The product of the lower bounds that begin before `upto`: how often the
/// repetitions of an expression repeat a text at most.
pub open spec fn repeats(e: Seq<char>, upto: int) -> nat
    decreases upto,
{
    if upto <= 0 {
        1
    } else {
        repeats(e, upto - 1) * factor_at(e, upto - 1)
    }
}

/// The most bytes of text that `e` lets a path repeat: every character at its
/// largest, as often as all repetitions together repeat.
pub open spec fn weight(e: Seq<char>) -> nat {
    BYTES_PER_CHAR as nat * e.len() * repeats(e, e.len() as int)
}

/// Whether the upper bound that follows the lower bound at `at`, if one
/// does, is a count that `regex` takes. An upper bound stands after the
/// comma that ends the lower bound.
pub open spec fn upper_fits(e: Seq<char>, at: int) -> bool {
    let end = run_end(e, at);
    end < e.len() && e[end] == ',' ==> number_at(e, end + 1) < COUNT_LIMIT
}

/// Whether the first `upto` characters of `e` may end inside a bracket class:
/// a `[` came, and no `]` without a backslash before it has followed.
pub open spec fn in_class(e: Seq<char>, upto: int) -> bool
    decreases upto,
{
    if upto <= 0 {
        false
    } else if e[upto - 1] == '[' {
        true
    } else if e[upto - 1] == ']' && !(upto >= 2 && e[upto - 2] == '\\') {
        false
    } else {
        in_class(e, upto - 1)
    }
}

/// Whether an alternative or a repetition may begin with `c`.
pub open spec fn opens(c: char) -> bool {
    c == '{' || c == '<'
}

/// Whether the character at `at` ends an alternative or a repetition for
/// certain: a `}` or `>` with no backslash before it and outside every
/// bracket class.
pub open spec fn closes(e: Seq<char>, at: int) -> bool {
    &&& e[at] == '}' || e[at] == '>'
    &&& !(at >= 1 && e[at - 1] == '\\')
    &&& !in_class(e, at)
}

/// The nesting after one more character: one deeper after a beginning, one
/// less deep after an end, and never below none.
pub open spec fn stepped(before: nat, begins: bool, ends: bool) -> nat {
    if begins {
        before + 1
    } else if ends && before > 0 {
        (before - 1) as nat
    } else {
        before
    }
}

/// How deep alternatives and repetitions nest after the first `upto`
/// characters of `e`, at most: every `{` and `<` counts as a beginning, and
/// only what closes for certain as an end.
pub open spec fn nesting(e: Seq<char>, upto: int) -> nat
    decreases upto,
{
    if upto <= 0 {
        0
    } else {
        stepped(nesting(e, upto - 1), opens(e[upto - 1]), closes(e, upto - 1))
    }
}

/// How deep repetitions nest in repetitions after the first `upto`
/// characters of `e`, at most: every `<` counts as a beginning, and only a
/// `>` that closes for certain as an end.
pub open spec fn repetition_nesting(e: Seq<char>, upto: int) -> nat
    decreases upto,
{
    if upto <= 0 {
        0
    } else {
        stepped(
            repetition_nesting(e, upto - 1),
            e[upto - 1] == '<',
            closes(e, upto - 1) && e[upto - 1] == '>',
        )
    }
}

/// Whether a glob expression is handed to `wax`. Four things are asked of it,
/// each a test on its text that errs on the side of caution.
///
/// - Its weight stays under [`SIZE_LIMIT`]. Then no text that `wax` measures
///   reaches its limit, whatever the platform's case rules, no size
///   overflows, and every lower bound is a count that `regex` takes. Left
///   out: an expression of 16384 characters or more; one whose lower bounds,
///   multiplied with each other and with four times its length, reach 65536,
///   such as `<a:70000>`. A number after a colon that stands behind a
///   backslash or in a bracket class counts as a lower bound too.
/// - Every upper bound is below [`COUNT_LIMIT`]. `wax` builds no glob with
///   a larger one. Left out: an expression in which a larger number stands
///   after a comma, a number and a colon that are no bounds, because the
///   colon stands behind a backslash or in a bracket class.
/// - Alternatives and repetitions nest no deeper than [`MAX_NESTING`]: one
///   level more, with a tree wildcard innermost and several pieces on every
///   level, and `wax` stops the program. The depth is counted from above. A
///   `{` or `<` counts as a beginning also behind a backslash and in a
///   bracket class; a `}` or `>` counts as an end only where no backslash
///   stands before it and no `[` has come without a `]` after it that has no
///   backslash before it. Left out: an expression that nests deeper with so
///   little on each level that `regex` still parses it, and one that nests
///   less deep than is counted.
/// - Repetitions nest in repetitions no deeper than
///   [`MAX_REPETITION_NESTING`], counted in the same way. Left out: deeper
///   nesting of repetitions, which `wax` builds after work that grows about
///   threefold with every level.
pub open spec fn admitted(e: Seq<char>) -> bool {
    &&& weight(e) < SIZE_LIMIT
    &&& forall|at: int| lower_bound_at(e, at) ==> upper_fits(e, at)
    &&& forall|upto: int| 0 <= upto <= e.len() ==> #[trigger] nesting(e, upto) <= MAX_NESTING
    &&& forall|upto: int|
        0 <= upto <= e.len() ==> #[trigger] repetition_nesting(e, upto) <= MAX_REPETITION_NESTING
}

/// Every text is there at least once.
pub proof fn lemma_repeats_positive(e: Seq<char>, upto: int)
    ensures
        1 <= repeats(e, upto),
    decreases upto,
{
    if upto > 0 {
        lemma_repeats_positive(e, upto - 1);
        let a = repeats(e, upto - 1);
        let f = factor_at(e, upto - 1);
        assert(1 <= a * f) by (nonlinear_arith)
            requires
                a >= 1,
                f >= 1,
        ;
    }
}

/// Lower bounds only add to how often a text is repeated.
pub proof fn lemma_repeats_grow(e: Seq<char>, from: int, upto: int)
    requires
        from <= upto,
    ensures
        1 <= repeats(e, from) <= repeats(e, upto),
    decreases upto - from,
{
    lemma_repeats_positive(e, from);
    if from < upto {
        lemma_repeats_grow(e, from, upto - 1);
        if upto > 0 {
            let a = repeats(e, upto - 1);
            let f = factor_at(e, upto - 1);
            assert(a <= a * f) by (nonlinear_arith)
                requires
                    a >= 1,
                    f >= 1,
            ;
        }
    }
}

/// Whether `e` is made of literal text, wildcards and bracket classes only,
/// and short: it holds none of the characters with which alternatives,
/// repetitions and their bounds begin, and is shorter than [`LENGTH_LIMIT`].
pub open spec fn plain(e: Seq<char>) -> bool {
    &&& e.len() < LENGTH_LIMIT
    &&& !e.contains('{')
    &&& !e.contains('<')
    &&& !e.contains(':')
}

/// Where no lower bound stands, nothing is repeated.
pub proof fn lemma_without_bounds(e: Seq<char>, upto: int)
    requires
        !e.contains(':'),
    ensures
        repeats(e, upto) == 1,
    decreases upto,
{
    if upto > 0 {
        lemma_without_bounds(e, upto - 1);
        if lower_bound_at(e, upto - 1) {
            assert(e[upto - 2] == ':');
            assert(e.contains(':'));
        }
        assert(factor_at(e, upto - 1) == 1);
    }
}

/// Where nothing begins, nothing nests.
pub proof fn lemma_without_beginnings(e: Seq<char>, upto: int)
    requires
        0 <= upto <= e.len(),
        !e.contains('{'),
        !e.contains('<'),
    ensures
        nesting(e, upto) == 0,
        repetition_nesting(e, upto) == 0,
    decreases upto,
{
    if upto > 0 {
        lemma_without_beginnings(e, upto - 1);
        assert(e[upto - 1] != '{' && e[upto - 1] != '<') by {
            if e[upto - 1] == '{' || e[upto - 1] == '<' {
                assert(e.contains(e[upto - 1]));
            }
        }
    }
}

/// Every plain expression is admitted: for literal text, wildcards and
/// bracket classes the answer is left to `wax`.
pub proof fn lemma_plain_admitted(e: Seq<char>)
    requires
        plain(e),
    ensures
        admitted(e),
{
    lemma_without_bounds(e, e.len() as int);
    assert(weight(e) == BYTES_PER_CHAR as nat * e.len()) by (nonlinear_arith)
        requires
            weight(e) == BYTES_PER_CHAR as nat * e.len() * repeats(e, e.len() as int),
            repeats(e, e.len() as int) == 1,
    ;
    assert forall|at: int| lower_bound_at(e, at) implies upper_fits(e, at) by {
        assert(e[at - 1] == ':');
        assert(e.contains(':'));
    }
    assert forall|upto: int| 0 <= upto <= e.len() implies #[trigger] nesting(e, upto)
        <= MAX_NESTING by {
        lemma_without_beginnings(e, upto);
    }
    assert forall|upto: int| 0 <= upto <= e.len() implies #[trigger] repetition_nesting(e, upto)
        <= MAX_REPETITION_NESTING by {
        lemma_without_beginnings(e, upto);
    }
}

/// Reads the number that begins at `from`: where its digits end, and the
/// number itself, or [`COUNT_LIMIT`] for any number that large or larger.
pub fn read_number(e: &Vec<char>, from: usize) -> (r: (u64, usize))
    requires
        from <= e.len(),
    ensures
        r.1 == run_end(e@, from as int),
        from <= r.1 <= e.len(),
        r.0 <= COUNT_LIMIT,
        number_at(e@, from as int) < COUNT_LIMIT ==> r.0 == number_at(e@, from as int),
        number_at(e@, from as int) >= COUNT_LIMIT ==> r.0 == COUNT_LIMIT,
{
    let n = e.len();
    let mut acc: u64 = 0;
    let mut j: usize = from;
    assert(e@.subrange(from as int, from as int) =~= Seq::<char>::empty());
    while j < n && e[j] >= '0' && e[j] <= '9'
        invariant
            from <= j <= n,
            n == e.len(),
            run_end(e@, from as int) == run_end(e@, j as int),
            acc <= COUNT_LIMIT,
            digits_value(e@.subrange(from as int, j as int)) < COUNT_LIMIT ==> acc == digits_value(
                e@.subrange(from as int, j as int),
            ),
            digits_value(e@.subrange(from as int, j as int)) >= COUNT_LIMIT ==> acc == COUNT_LIMIT,
        decreases n - j,
    {
        let c = e[j];
        let digit: u64 = (c as u32 - '0' as u32) as u64;
        proof {
            let before = e@.subrange(from as int, j as int);
            let next = e@.subrange(from as int, j + 1);
            assert(next.drop_last() =~= before);
            assert(next.last() == c);
            assert(digit == digit_value(c));
            assert(digits_value(next) == digits_value(before) * 10 + digit);
        }
        let grown: u64 = acc * 10 + digit;
        acc = if grown >= COUNT_LIMIT {
            COUNT_LIMIT
        } else {
            grown
        };
        j = j + 1;
    }
    (acc, j)
}

/// Whether a glob expression is handed to `wax`.
pub fn is_admitted(expression: &str) -> (ok: bool)
    ensures
        ok == admitted(expression@),
{
    let e = chars_of(expression);
    let n = e.len();
    if n >= LENGTH_LIMIT {
        proof {
            lemma_repeats_grow(e@, 0, n as int);
            let r = repeats(e@, n as int);
            assert(BYTES_PER_CHAR as nat * n as nat * r >= SIZE_LIMIT) by (nonlinear_arith)
                requires
                    r >= 1,
                    n >= 16384,
                    BYTES_PER_CHAR == 4,
                    SIZE_LIMIT == 65536,
            ;
        }
        return false;
    }
    let length: u64 = n as u64;
    let mut product: u64 = 1;
    let mut depth: usize = 0;
    let mut repeated: usize = 0;
    let mut class: bool = false;
    let mut i: usize = 0;
    while i < n
        invariant
            0 <= i <= n,
            n == e.len(),
            n < LENGTH_LIMIT,
            length == n,
            e@ == expression@,
            product == repeats(e@, i as int),
            1 <= product,
            BYTES_PER_CHAR * length * product < SIZE_LIMIT || n == 0,
            product < SIZE_LIMIT,
            depth == nesting(e@, i as int),
            depth <= MAX_NESTING,
            repeated == repetition_nesting(e@, i as int),
            repeated <= MAX_REPETITION_NESTING,
            class == in_class(e@, i as int),
            forall|at: int| 0 <= at < i && lower_bound_at(e@, at) ==> upper_fits(e@, at),
            forall|upto: int| 0 <= upto <= i ==> #[trigger] nesting(e@, upto) <= MAX_NESTING,
            forall|upto: int|
                0 <= upto <= i ==> #[trigger] repetition_nesting(e@, upto)
                    <= MAX_REPETITION_NESTING,
        decreases n - i,
    {
        let c = e[i];
        if i > 0 && e[i - 1] == ':' && c >= '0' && c <= '9' {
            let (number, end) = read_number(&e, i);
            let factor: u64 = if number > 1 {
                number
            } else {
                1
            };
            if factor >= SIZE_LIMIT {
                proof {
                    let f = factor_at(e@, i as int);
                    let before = repeats(e@, i as int);
                    assert(f >= SIZE_LIMIT);
                    lemma_repeats_grow(e@, i + 1, n as int);
                    let all = repeats(e@, n as int);
                    assert(BYTES_PER_CHAR as nat * n as nat * all >= SIZE_LIMIT) by (
                        nonlinear_arith)
                        requires
                            all >= before * f,
                            before >= 1,
                            f >= SIZE_LIMIT,
                            n >= 1,
                            BYTES_PER_CHAR == 4,
                    ;
                }
                return false;
            }
            assert(factor == factor_at(e@, i as int));
            assert(product * factor < SIZE_LIMIT * SIZE_LIMIT) by (nonlinear_arith)
                requires
                    product < SIZE_LIMIT,
                    factor < SIZE_LIMIT,
            ;
            let grown: u64 = product * factor;
            assert(grown >= 1) by (nonlinear_arith)
                requires
                    grown == product * factor,
                    product >= 1,
                    factor >= 1,
            ;
            assert(BYTES_PER_CHAR * length * grown < 4 * 16384 * (SIZE_LIMIT * SIZE_LIMIT)) by (
                nonlinear_arith)
                requires
                    length < 16384,
                    grown < SIZE_LIMIT * SIZE_LIMIT,
                    BYTES_PER_CHAR == 4,
            ;
            if BYTES_PER_CHAR * length * grown >= SIZE_LIMIT {
                proof {
                    lemma_repeats_grow(e@, i + 1, n as int);
                    let all = repeats(e@, n as int);
                    assert(BYTES_PER_CHAR as nat * n as nat * all >= SIZE_LIMIT) by (
                        nonlinear_arith)
                        requires
                            all >= grown,
                            BYTES_PER_CHAR * length * grown >= SIZE_LIMIT,
                            length == n,
                    ;
                }
                return false;
            }
            assert(grown < SIZE_LIMIT) by (nonlinear_arith)
                requires
                    BYTES_PER_CHAR * length * grown < SIZE_LIMIT,
                    length >= 1,
                    BYTES_PER_CHAR == 4,
            ;
            product = grown;
            if end < n && e[end] == ',' {
                let (upper, _) = read_number(&e, end + 1);
                if upper >= COUNT_LIMIT {
                    assert(!upper_fits(e@, i as int));
                    return false;
                }
            }
        } else {
            assert(factor_at(e@, i as int) == 1);
            assert(product * 1 == product);
        }
        let ends = (c == '}' || c == '>') && !(i >= 1 && e[i - 1] == '\\') && !class;
        if c == '{' || c == '<' {
            if depth >= MAX_NESTING {
                assert(nesting(e@, i + 1) > MAX_NESTING);
                return false;
            }
            depth = depth + 1;
        } else if ends && depth > 0 {
            depth = depth - 1;
        }
        if c == '<' {
            if repeated >= MAX_REPETITION_NESTING {
                assert(repetition_nesting(e@, i + 1) > MAX_REPETITION_NESTING);
                return false;
            }
            repeated = repeated + 1;
        } else if ends && c == '>' && repeated > 0 {
            repeated = repeated - 1;
        }
        if c == '[' {
            class = true;
        } else if c == ']' && !(i >= 1 && e[i - 1] == '\\') {
            class = false;
        }
        i = i + 1;
    }
    proof {
        if n == 0 {
            assert(weight(e@) == 0) by (nonlinear_arith)
                requires
                    weight(e@) == BYTES_PER_CHAR as nat * e@.len() * repeats(e@, e@.len() as int),
                    e@.len() == 0,
            ;
        }
        assert forall|at: int| lower_bound_at(e@, at) implies upper_fits(e@, at) by {}
    }
    true
}

} // verus!
