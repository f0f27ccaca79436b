use rand::Rng;
use vstd::prelude::*;

use crate::models::Level;
use crate::text::{decimal_int, push_char, push_decimal_i32, push_str};

verus! {

/// The Fibonacci numbers: `fib(0) == 0`, `fib(1) == 1`.
pub open spec fn fib(n: nat) -> nat
    decreases n,
{
    if n == 0 {
        0
    } else if n == 1 {
        1
    } else {
        fib((n - 2) as nat) + fib((n - 1) as nat)
    }
}

/// `fib` never decreases.
pub proof fn lemma_fib_monotonic(i: nat, j: nat)
    requires
        i <= j,
    ensures
        fib(i) <= fib(j),
    decreases j - i,
{
    if i < j {
        lemma_fib_monotonic(i, (j - 1) as nat);
        if j >= 2 {
            assert(fib(j) == fib((j - 2) as nat) + fib((j - 1) as nat));
        }
    }
}

/// `k` steps of the Fibonacci recurrence from the pair `a`, `b`.
spec fn fib_from(k: nat, a: nat, b: nat) -> nat
    decreases k,
{
    if k == 0 {
        a
    } else {
        fib_from((k - 1) as nat, b, a + b)
    }
}

proof fn lemma_fib_from(k: nat, j: nat)
    ensures
        fib_from(k, fib(j), fib(j + 1)) == fib(j + k),
    decreases k,
{
    if k > 0 {
        assert(fib(j + 2) == fib(j) + fib(j + 1));
        lemma_fib_from((k - 1) as nat, j + 1);
    }
}

/// The largest Fibonacci number below 2^31 is `fib(46)`.
pub proof fn lemma_fib_46()
    ensures
        fib(46) == 1836311903,
{
    lemma_fib_from(46, 0);
    assert(fib_from(46, 0, 1) == 1836311903) by {
        reveal_with_fuel(fib_from, 47);
    }
}

/// The `n`-th Fibonacci number. The loop also computes `fib(n + 1)`, so it
/// stays within `i32` up to `n == 45`.
pub fn fibonacci(n: usize) -> (r: i32)
    requires
        n <= 45,
    ensures
        r == fib(n as nat),
{
    proof {
        lemma_fib_46();
        lemma_fib_monotonic((n + 1) as nat, 46);
    }
    let mut a: i32 = 0;
    let mut b: i32 = 1;
    let mut i: usize = 0;
    while i < n
        invariant
            i <= n,
            n <= 45,
            a == fib(i as nat),
            b == fib((i + 1) as nat),
            fib((n + 1) as nat) <= 1836311903,
        decreases n - i,
    {
        proof {
            lemma_fib_monotonic((i + 2) as nat, (n + 1) as nat);
        }
        let temp = a + b;
        a = b;
        b = temp;
        i = i + 1;
    }
    a
}

/// The symbol of an operation number, as a pattern's rule names it.
pub open spec fn operand_symbol(num: int) -> Seq<char> {
    if num == 1 {
        "+"@
    } else if num == 2 {
        "-"@
    } else if num == 3 {
        "*"@
    } else if num == 4 {
        "/"@
    } else if num == 5 {
        "^"@
    } else if num == 6 {
        "\u{221a}"@
    } else if num == 7 {
        "Fibonacci"@
    } else {
        "?"@
    }
}

/// The symbol of operation `num`: `+ - * / ^`, the square root sign and
/// `Fibonacci` for one to seven, `?` for any other number.
pub fn operand_num_to_string(num: i32) -> (s: &'static str)
    ensures
        s@ == operand_symbol(num as int),
{
    if num == 1 {
        "+"
    } else if num == 2 {
        "-"
    } else if num == 3 {
        "*"
    } else if num == 4 {
        "/"
    } else if num == 5 {
        "^"
    } else if num == 6 {
        "\u{221a}"
    } else if num == 7 {
        "Fibonacci"
    } else {
        "?"
    }
}

// ---------------------------------------------------------------------------
// Rounded square roots
// ---------------------------------------------------------------------------

/// `r` is the integer nearest to the square root of `v`: `|r - sqrt(v)| < 1/2`.
pub open spec fn is_rounded_sqrt(v: int, r: int) -> bool {
    &&& r >= 0
    &&& (r == 0 || (2 * r - 1) * (2 * r - 1) < 4 * v)
    &&& 4 * v < (2 * r + 1) * (2 * r + 1)
}

/// The square root of `v` rounded to the nearest integer, and 0 for a
/// negative `v` (whose floating-point root is not a number, which converts
/// to 0).
pub open spec fn rounded_sqrt(v: int) -> int {
    if v < 0 {
        0
    } else {
        choose|r: int| is_rounded_sqrt(v, r)
    }
}

/// At most one integer is nearest to a square root.
pub proof fn lemma_rounded_sqrt_unique(v: int, r1: int, r2: int)
    requires
        is_rounded_sqrt(v, r1),
        is_rounded_sqrt(v, r2),
    ensures
        r1 == r2,
{
    if r1 < r2 {
        assert((2 * r1 + 1) * (2 * r1 + 1) <= (2 * r2 - 1) * (2 * r2 - 1)) by (nonlinear_arith)
            requires
                0 <= r1 < r2,
        ;
    } else if r2 < r1 {
        assert((2 * r2 + 1) * (2 * r2 + 1) <= (2 * r1 - 1) * (2 * r1 - 1)) by (nonlinear_arith)
            requires
                0 <= r2 < r1,
        ;
    }
}

/// The square root of `v` rounded to the nearest integer, which is what
/// `(v as f64).sqrt().round() as i32` gives for `0 <= v <= i32::MAX`: the
/// square root of an integer is never half way between two integers, and its
/// distance to such a point is far above the rounding error of `f64` there.
pub fn round_sqrt(v: i64) -> (r: i64)
    requires
        0 <= v <= i32::MAX,
    ensures
        r == rounded_sqrt(v as int),
        0 <= r <= 46341,
{
    let mut f: i64 = 0;
    let mut next_sq: i64 = 1;
    while next_sq <= v
        invariant
            0 <= f <= 46340,
            next_sq == (f + 1) * (f + 1),
            f * f <= v,
            0 <= v <= i32::MAX,
        decreases v - f * f,
    {
        assert((f + 1) * (f + 1) > f * f) by (nonlinear_arith)
            requires
                f >= 0,
        ;
        assert(f + 1 <= 46340) by (nonlinear_arith)
            requires
                (f + 1) * (f + 1) <= v,
                v <= i32::MAX,
                f >= 0,
        ;
        assert((f + 2) * (f + 2) == (f + 1) * (f + 1) + 2 * f + 3) by (nonlinear_arith);
        next_sq = next_sq + 2 * f + 3;
        f = f + 1;
    }
    let r = if v - f * f > f {
        f + 1
    } else {
        f
    };
    assert(is_rounded_sqrt(v as int, r as int)) by (nonlinear_arith)
        requires
            f >= 0,
            f * f <= v,
            v < (f + 1) * (f + 1),
            v - f * f > f ==> r == f + 1,
            v - f * f <= f ==> r == f,
    ;
    proof {
        let c = choose|x: int| is_rounded_sqrt(v as int, x);
        lemma_rounded_sqrt_unique(v as int, c, r as int);
    }
    r
}

// ---------------------------------------------------------------------------
// Sequences
// ---------------------------------------------------------------------------

/// `b` to the power `e`.
pub open spec fn int_pow(b: int, e: nat) -> int
    decreases e,
{
    if e == 0 {
        1
    } else {
        b * int_pow(b, (e - 1) as nat)
    }
}

/// Division that rounds toward zero, as `/` on Rust integers does.
pub open spec fn trunc_div(a: int, b: int) -> int {
    if a >= 0 {
        a / b
    } else {
        -((-a) / b)
    }
}

/// How many operations a level draws from.
pub open spec fn operation_count(level: Level) -> int {
    match level {
        Level::Easy => 4,
        Level::Medium => 5,
        Level::Hard => 6,
        Level::Impossible => 7,
    }
}

/// The range `lo..hi` from which a level draws its first number.
pub open spec fn start_range(level: Level) -> (int, int) {
    match level {
        Level::Easy => (2, 21),
        Level::Medium => (6, 21),
        Level::Hard => (10, 50),
        Level::Impossible => (50, 200),
    }
}

/// The range `lo..hi` from which a level draws the number that the rule
/// names last (what operations one and two add or subtract).
pub open spec fn complementary_range(level: Level) -> (int, int) {
    match level {
        Level::Easy => (1, 25),
        Level::Medium => (1, 65),
        Level::Hard => (2, 100),
        Level::Impossible => (5, 150),
    }
}

/// The range `lo..hi` from which each step draws its factor, divisor or
/// exponent, for the operations that draw one per step.
pub open spec fn factor_range(level: Level, op: int) -> Option<(int, int)> {
    match level {
        Level::Easy => if op == 3 {
            Some((1, 4))
        } else {
            None
        },
        Level::Medium => if op == 3 || op == 4 {
            Some((2, 5))
        } else {
            None
        },
        Level::Hard => if op == 3 {
            Some((2, 7))
        } else if op == 4 {
            Some((2, 5))
        } else if op == 5 {
            Some((1, 3))
        } else {
            None
        },
        Level::Impossible => if op == 3 || op == 4 {
            Some((2, 10))
        } else if op == 5 {
            Some((1, 3))
        } else {
            None
        },
    }
}

/// Whether `f` lies in the factor range of `level` and `op`, where there is one.
pub open spec fn factor_ok(level: Level, op: int, f: int) -> bool {
    match factor_range(level, op) {
        Some(r) => r.0 <= f < r.1,
        None => true,
    }
}

/// The draws that a level can make: the first number, the operation, the
/// complementary number, and one number per step (used where the operation
/// draws one).
pub open spec fn draws_valid(level: Level, start: int, op: int, comp: int, factors: Seq<i32>) -> bool {
    &&& start_range(level).0 <= start < start_range(level).1
    &&& 1 <= op <= operation_count(level)
    &&& complementary_range(level).0 <= comp < complementary_range(level).1
    &&& factors.len() == 4
    &&& forall|i: int| 0 <= i < 4 ==> factor_ok(level, op, #[trigger] factors[i] as int)
}

/// The term that step `i` of a pattern makes from the value before it.
pub open spec fn next_term(level: Level, op: int, comp: int, factor: int, i: int, value: int) -> int {
    if op == 1 {
        value + comp
    } else if op == 2 {
        value - comp
    } else if op == 3 {
        value * factor
    } else if op == 4 {
        if level == Level::Easy {
            value * 2
        } else {
            trunc_div(value, factor)
        }
    } else if op == 5 {
        if level == Level::Medium {
            value * 2
        } else {
            int_pow(value, factor as nat)
        }
    } else if op == 6 {
        if level == Level::Hard {
            fib((i + 5) as nat) as int
        } else {
            rounded_sqrt(value)
        }
    } else {
        fib((i + 8) as nat) as int
    }
}

/// The value after `k` steps of a pattern: the first number for `k == 0`,
/// then the `k`-th term.
pub open spec fn value_after(level: Level, start: int, op: int, comp: int, factors: Seq<i32>, k: nat) -> int
    decreases k,
{
    if k == 0 {
        start
    } else {
        next_term(
            level,
            op,
            comp,
            factors[k - 1] as int,
            k - 1,
            value_after(level, start, op, comp, factors, (k - 1) as nat),
        )
    }
}

/// Whether `x` is an `i32`.
pub open spec fn fits_i32(x: int) -> bool {
    i32::MIN <= x <= i32::MAX
}

/// Whether all four terms of a pattern are `i32` values.
pub open spec fn terms_fit(level: Level, start: int, op: int, comp: int, factors: Seq<i32>) -> bool {
    forall|k: nat| 1 <= k <= 4 ==> fits_i32(#[trigger] value_after(level, start, op, comp, factors, k))
}

/// The rule text of a pattern: `first,symbol,complementary`.
pub open spec fn rule_text(start: int, op: int, comp: int) -> Seq<char> {
    decimal_int(start) + seq![','] + operand_symbol(op) + seq![','] + decimal_int(comp)
}

/// Whether `r` is the pattern that the given draws make: its four terms and
/// its rule.
pub open spec fn is_built_pattern(
    r: (Vec<i32>, String),
    level: Level,
    start: int,
    op: int,
    comp: int,
    factors: Seq<i32>,
) -> bool {
    &&& r.0@.len() == 4
    &&& forall|i: int|
        0 <= i < 4 ==> #[trigger] r.0@[i] == value_after(level, start, op, comp, factors, (i + 1) as nat)
    &&& r.1@ == rule_text(start, op, comp)
}

/// The result that the given draws give: the pattern where all terms fit in
/// `i32`, nothing otherwise.
pub open spec fn is_sequence_result(
    r: Option<(Vec<i32>, String)>,
    level: Level,
    start: int,
    op: int,
    comp: int,
    factors: Seq<i32>,
) -> bool {
    match r {
        Some(p) => terms_fit(level, start, op, comp, factors) && is_built_pattern(
            p,
            level,
            start,
            op,
            comp,
            factors,
        ),
        None => !terms_fit(level, start, op, comp, factors),
    }
}

/// The pattern that the given draws make: four terms, each made from the
/// value before it by the drawn operation, and the rule
/// `first,symbol,complementary`. `None` where a term leaves the `i32` range,
/// where the arithmetic would overflow (only a power can, on the hard and
/// impossible levels).
pub fn build_sequence(level: Level, start: i32, op: i32, comp: i32, factors: &Vec<i32>) -> (r: Option<(Vec<i32>, String)>)
    requires
        draws_valid(level, start as int, op as int, comp as int, factors@),
    ensures
        is_sequence_result(r, level, start as int, op as int, comp as int, factors@),
{
    let ghost fs = factors@;
    let ghost st = start as int;
    let ghost o = op as int;
    let ghost c = comp as int;
    let mut terms: Vec<i32> = Vec::new();
    let mut value: i64 = start as i64;
    let mut i: usize = 0;
    while i < 4
        invariant
            draws_valid(level, st, o, c, fs),
            fs == factors@,
            st == start,
            o == op,
            c == comp,
            i <= 4,
            terms@.len() == i,
            value == value_after(level, st, o, c, fs, i as nat),
            fits_i32(value as int),
            forall|j: int| 0 <= j < i ==> #[trigger] terms@[j] == value_after(level, st, o, c, fs, (j + 1) as nat),
            forall|k: nat| 1 <= k <= i ==> fits_i32(#[trigger] value_after(level, st, o, c, fs, k)),
        decreases 4 - i,
    {
        let f = factors[i];
        assert(factor_ok(level, o, fs[i as int] as int));
        assert(value_after(level, st, o, c, fs, (i + 1) as nat) == next_term(level, o, c, f as int, i as int, value as int));
        let next: i64 = if op == 1 {
            value + comp as i64
        } else if op == 2 {
            value - comp as i64
        } else if op == 3 {
            assert(1 <= f < 10);
            assert(-0x8_0000_0000 <= value * f <= 0x8_0000_0000) by (nonlinear_arith)
                requires
                    -0x8000_0000 <= value <= 0x7fff_ffff,
                    1 <= f < 10,
            ;
            value * f as i64
        } else if op == 4 {
            if level == Level::Easy {
                value * 2
            } else if value >= 0 {
                value / (f as i64)
            } else {
                -((-value) / (f as i64))
            }
        } else if op == 5 {
            if level == Level::Medium {
                value * 2
            } else if f == 1 {
                reveal_with_fuel(int_pow, 3);
                assert(int_pow(value as int, 1) == value as int);
                value
            } else {
                reveal_with_fuel(int_pow, 3);
                assert(f == 2);
                assert(int_pow(value as int, 2) == value * value);
                assert(0 <= value * value <= 0x4000_0000_0000_0000) by (nonlinear_arith)
                    requires
                        -0x8000_0000 <= value <= 0x7fff_ffff,
                ;
                value * value
            }
        } else if op == 6 {
            if level == Level::Hard {
                let t = fibonacci(i + 5);
                t as i64
            } else if value < 0 {
                0
            } else {
                round_sqrt(value)
            }
        } else {
            let t = fibonacci(i + 8);
            t as i64
        };
        if next < i32::MIN as i64 || next > i32::MAX as i64 {
            assert(!fits_i32(value_after(level, st, o, c, fs, (i + 1) as nat)));
            return None;
        }
        terms.push(next as i32);
        value = next;
        i = i + 1;
    }
    let mut rule = String::new();
    push_decimal_i32(&mut rule, start);
    push_char(&mut rule, ',');
    push_str(&mut rule, operand_num_to_string(op));
    push_char(&mut rule, ',');
    push_decimal_i32(&mut rule, comp);
    assert(rule@ =~= rule_text(st, o, c));
    Some((terms, rule))
}

proof fn lemma_pow_positive(b: int, e: nat)
    requires
        b >= 1,
    ensures
        int_pow(b, e) >= 1,
    decreases e,
{
    if e > 0 {
        lemma_pow_positive(b, (e - 1) as nat);
        assert(b * int_pow(b, (e - 1) as nat) >= 1) by (nonlinear_arith)
            requires
                b >= 1,
                int_pow(b, (e - 1) as nat) >= 1,
        ;
    }
}

proof fn lemma_easy_medium_bound(level: Level, start: int, op: int, comp: int, factors: Seq<i32>, k: nat)
    requires
        level == Level::Easy || level == Level::Medium,
        draws_valid(level, start, op, comp, factors),
        k <= 4,
    ensures
        -64 * k <= value_after(level, start, op, comp, factors, k) <= 100 * int_pow(4, k),
        op != 2 ==> value_after(level, start, op, comp, factors, k) >= 0,
    decreases k,
{
    if k > 0 {
        let km = (k - 1) as nat;
        lemma_easy_medium_bound(level, start, op, comp, factors, km);
        lemma_pow_positive(4, km);
        let v = value_after(level, start, op, comp, factors, km);
        let f = factors[km as int] as int;
        let p = int_pow(4, km);
        assert(int_pow(4, k) == 4 * p);
        assert(factor_ok(level, op, f));
        let n = value_after(level, start, op, comp, factors, k);
        assert(n == next_term(level, op, comp, f, km as int, v));
        if op == 3 {
            assert(0 <= v * f <= 100 * (4 * p)) by (nonlinear_arith)
                requires
                    0 <= v <= 100 * p,
                    1 <= f <= 4,
            ;
        } else if op == 4 && level == Level::Medium {
            assert(0 <= v / f <= v) by (nonlinear_arith)
                requires
                    0 <= v,
                    2 <= f,
            ;
        }
    }
}

/// On the easy and medium levels every term of a pattern stays well within
/// the `i32` range.
proof fn lemma_easy_medium_fit(level: Level, start: int, op: int, comp: int, factors: Seq<i32>)
    requires
        level == Level::Easy || level == Level::Medium,
        draws_valid(level, start, op, comp, factors),
    ensures
        terms_fit(level, start, op, comp, factors),
{
    reveal_with_fuel(int_pow, 5);
    assert(int_pow(4, 4) == 256);
    assert forall|k: nat| 1 <= k <= 4 implies fits_i32(#[trigger] value_after(level, start, op, comp, factors, k)) by {
        lemma_easy_medium_bound(level, start, op, comp, factors, k);
        lemma_pow_monotonic_4(k, 4);
    }
}

proof fn lemma_pow_monotonic_4(i: nat, j: nat)
    requires
        i <= j,
    ensures
        int_pow(4, i) <= int_pow(4, j),
    decreases j - i,
{
    if i < j {
        lemma_pow_monotonic_4(i, (j - 1) as nat);
        lemma_pow_positive(4, (j - 1) as nat);
    }
}

/// Draws a number uniformly from `low..high` with rand's `Rng::gen_range` on
/// the thread-local generator. rand documents that the value lies in the
/// range, and that an empty range panics, which `requires` leaves out.
#[verifier::external_body]
pub(crate) fn random_in_range(low: i32, high: i32) -> (r: i32)
    requires
        low < high,
    ensures
        low <= r < high,
{
    rand::thread_rng().gen_range(low..high)
}

/// The range from which `level` draws its first number.
pub fn start_bounds(level: Level) -> (b: (i32, i32))
    ensures
        b.0 == start_range(level).0,
        b.1 == start_range(level).1,
{
    match level {
        Level::Easy => (2, 21),
        Level::Medium => (6, 21),
        Level::Hard => (10, 50),
        Level::Impossible => (50, 200),
    }
}

/// How many operations `level` draws from.
pub fn operation_total(level: Level) -> (n: i32)
    ensures
        n == operation_count(level),
{
    match level {
        Level::Easy => 4,
        Level::Medium => 5,
        Level::Hard => 6,
        Level::Impossible => 7,
    }
}

/// The range from which `level` draws its complementary number.
pub fn complementary_bounds(level: Level) -> (b: (i32, i32))
    ensures
        b.0 == complementary_range(level).0,
        b.1 == complementary_range(level).1,
{
    match level {
        Level::Easy => (1, 25),
        Level::Medium => (1, 65),
        Level::Hard => (2, 100),
        Level::Impossible => (5, 150),
    }
}

/// The range from which each step of `level` draws its factor, divisor or
/// exponent under operation `op`, where that operation draws one.
pub fn factor_bounds(level: Level, op: i32) -> (b: Option<(i32, i32)>)
    ensures
        match b {
            Some(p) => factor_range(level, op as int) == Some((p.0 as int, p.1 as int)),
            None => factor_range(level, op as int) is None,
        },
{
    match level {
        Level::Easy => if op == 3 {
            Some((1, 4))
        } else {
            None
        },
        Level::Medium => if op == 3 || op == 4 {
            Some((2, 5))
        } else {
            None
        },
        Level::Hard => if op == 3 {
            Some((2, 7))
        } else if op == 4 {
            Some((2, 5))
        } else if op == 5 {
            Some((1, 3))
        } else {
            None
        },
        Level::Impossible => if op == 3 || op == 4 {
            Some((2, 10))
        } else if op == 5 {
            Some((1, 3))
        } else {
            None
        },
    }
}

/// The range from which the `Gen-1` command draws the term to solve.
pub open spec fn term_range() -> (int, int) {
    (6, 12)
}

/// The range from which the `Gen-1` command draws the term to solve.
pub fn term_bounds() -> (b: (i32, i32))
    ensures
        b.0 == term_range().0,
        b.1 == term_range().1,
{
    (6, 12)
}

/// Whether `r` is what some draws that `level` can make give.
pub open spec fn is_generated_sequence(level: Level, r: Option<(Vec<i32>, String)>) -> bool {
    exists|start: i32, op: i32, comp: i32, factors: Seq<i32>|
        #[trigger] draws_valid(level, start as int, op as int, comp as int, factors)
            && is_sequence_result(r, level, start as int, op as int, comp as int, factors)
}

/// Draws a pattern of the given level at random: the first number, the
/// operation, the complementary number, and a factor per step where the
/// operation uses one; then builds the pattern from them (`None` where a
/// power leaves the `i32` range). On the easy and medium levels a pattern
/// always comes back.
pub fn generate_sequence(level: &Level) -> (r: Option<(Vec<i32>, String)>)
    ensures
        is_generated_sequence(*level, r),
        (*level == Level::Easy || *level == Level::Medium) ==> r is Some,
{
    let level = *level;
    let (slo, shi) = start_bounds(level);
    let ops = operation_total(level);
    let (clo, chi) = complementary_bounds(level);
    let start = random_in_range(slo, shi);
    let op = random_in_range(1, ops + 1);
    let comp = random_in_range(clo, chi);
    let (uses_factor, flo, fhi): (bool, i32, i32) = match factor_bounds(level, op) {
        Some((lo, hi)) => (true, lo, hi),
        None => (false, 1, 2),
    };
    let mut factors: Vec<i32> = Vec::new();
    let mut i: usize = 0;
    while i < 4
        invariant
            i <= 4,
            factors@.len() == i,
            flo < fhi,
            uses_factor <==> factor_range(level, op as int) is Some,
            uses_factor ==> factor_range(level, op as int) == Some((flo as int, fhi as int)),
            forall|j: int| 0 <= j < i ==> factor_ok(level, op as int, #[trigger] factors@[j] as int),
        decreases 4 - i,
    {
        let f = if uses_factor {
            random_in_range(flo, fhi)
        } else {
            1
        };
        factors.push(f);
        i = i + 1;
    }
    let ghost fs = factors@;
    assert(draws_valid(level, start as int, op as int, comp as int, fs));
    let r = build_sequence(level, start, op, comp, &factors);
    proof {
        if level == Level::Easy || level == Level::Medium {
            lemma_easy_medium_fit(level, start as int, op as int, comp as int, fs);
        }
    }
    r
}

// ---------------------------------------------------------------------------
// Laws of patterns
// ---------------------------------------------------------------------------

/// Every integer from zero on has a whole square root: `f` with
/// `f * f <= v < (f + 1) * (f + 1)`.
proof fn lemma_floor_sqrt_exists(v: nat)
    ensures
        exists|f: int| f >= 0 && #[trigger] (f * f) <= v < (f + 1) * (f + 1),
    decreases v,
{
    if v == 0 {
        let f: int = 0;
        assert(f * f == 0 && (f + 1) * (f + 1) == 1) by (nonlinear_arith)
            requires
                f == 0,
        ;
        assert(f >= 0 && f * f <= v < (f + 1) * (f + 1));
    } else {
        lemma_floor_sqrt_exists((v - 1) as nat);
        let f = choose|f: int| f >= 0 && #[trigger] (f * f) <= (v - 1) < (f + 1) * (f + 1);
        if (f + 1) * (f + 1) <= v {
            assert(v < (f + 2) * (f + 2)) by (nonlinear_arith)
                requires
                    v - 1 < (f + 1) * (f + 1),
                    f >= 0,
            ;
            assert((f + 1) >= 0 && (f + 1) * (f + 1) <= v < ((f + 1) + 1) * ((f + 1) + 1));
        } else {
            assert(f * f <= v < (f + 1) * (f + 1));
        }
    }
}

/// Every integer from zero on has a rounded square root.
proof fn lemma_rounded_sqrt_exists(v: int)
    requires
        v >= 0,
    ensures
        is_rounded_sqrt(v, rounded_sqrt(v)),
{
    lemma_floor_sqrt_exists(v as nat);
    let f = choose|f: int| f >= 0 && #[trigger] (f * f) <= v < (f + 1) * (f + 1);
    let r = if v - f * f > f {
        f + 1
    } else {
        f
    };
    assert(is_rounded_sqrt(v, r)) by (nonlinear_arith)
        requires
            f >= 0,
            f * f <= v,
            v < (f + 1) * (f + 1),
            v - f * f > f ==> r == f + 1,
            v - f * f <= f ==> r == f,
    ;
}

/// One step of a pattern: the term made from the value `prev` before it,
/// by each operation of each level, stated by what the term must satisfy.
proof fn lemma_step(level: Level, start: int, op: int, comp: int, factors: Seq<i32>, k: nat)
    requires
        draws_valid(level, start, op, comp, factors),
        k < 4,
    ensures
        ({
            let prev = value_after(level, start, op, comp, factors, k);
            let t = value_after(level, start, op, comp, factors, k + 1);
            let f = factors[k as int] as int;
            &&& op == 1 ==> t == prev + comp
            &&& op == 2 ==> t == prev - comp
            &&& op == 3 ==> t == prev * f
            &&& op == 4 && level == Level::Easy ==> t == 2 * prev
            &&& op == 4 && level != Level::Easy && prev >= 0 ==> f * t <= prev < f * t + f
            &&& op == 4 && level != Level::Easy && prev < 0 ==> f * t - f < prev <= f * t
            &&& op == 5 && level == Level::Medium ==> t == 2 * prev
            &&& op == 5 && level != Level::Medium && f == 1 ==> t == prev
            &&& op == 5 && level != Level::Medium && f == 2 ==> t == prev * prev
            &&& op == 6 && level == Level::Hard ==> t == fib(k + 5)
            &&& op == 6 && level != Level::Hard && prev < 0 ==> t == 0
            &&& op == 6 && level != Level::Hard && prev >= 0 ==> is_rounded_sqrt(prev, t)
            &&& op == 7 ==> t == fib(k + 8)
        }),
{
    let prev = value_after(level, start, op, comp, factors, k);
    let t = value_after(level, start, op, comp, factors, k + 1);
    let f = factors[k as int] as int;
    assert(t == next_term(level, op, comp, f, k as int, prev));
    assert(factor_ok(level, op, f));
    if op == 4 && level != Level::Easy {
        assert(f >= 2);
        if prev >= 0 {
            vstd::arithmetic::div_mod::lemma_fundamental_div_mod(prev, f);
            vstd::arithmetic::div_mod::lemma_mod_bound(prev, f);
            assert(t == prev / f);
        } else {
            let q = (-prev) / f;
            vstd::arithmetic::div_mod::lemma_fundamental_div_mod(-prev, f);
            vstd::arithmetic::div_mod::lemma_mod_bound(-prev, f);
            assert(t == -q);
            assert(f * t == -(f * q)) by (nonlinear_arith)
                requires
                    t == -q,
            ;
        }
    }
    if op == 5 && level != Level::Medium {
        reveal_with_fuel(int_pow, 3);
    }
    if op == 6 && level != Level::Hard && prev >= 0 {
        lemma_rounded_sqrt_exists(prev);
    }
}

/// A built pattern follows its rule term by term: each term is made from
/// the one before it (the first number for the first term) and that step's
/// draw. `+` and `-` add and subtract the complementary number, `*`
/// multiplies by the step's factor, `/` divides by it rounding toward zero
/// (doubles on the easy level), `^` raises to the step's exponent (doubles
/// on the medium level), the square root rounds to the nearest integer
/// (gives 0 below zero), and the Fibonacci rules give `fib(k + 5)` on the
/// hard level and `fib(k + 8)` otherwise.
pub proof fn lemma_built_pattern_follows_rule(
    r: (Vec<i32>, String),
    level: Level,
    start: int,
    op: int,
    comp: int,
    factors: Seq<i32>,
)
    requires
        draws_valid(level, start, op, comp, factors),
        is_built_pattern(r, level, start, op, comp, factors),
    ensures
        r.0@.len() == 4,
        forall|k: int|
            0 <= k < 4 ==> {
                let prev = if k == 0 {
                    start
                } else {
                    r.0@[k - 1] as int
                };
                let t = #[trigger] r.0@[k] as int;
                let f = factors[k] as int;
                &&& op == 1 ==> t == prev + comp
                &&& op == 2 ==> t == prev - comp
                &&& op == 3 ==> t == prev * f
                &&& op == 4 && level == Level::Easy ==> t == 2 * prev
                &&& op == 4 && level != Level::Easy && prev >= 0 ==> f * t <= prev < f * t + f
                &&& op == 4 && level != Level::Easy && prev < 0 ==> f * t - f < prev <= f * t
                &&& op == 5 && level == Level::Medium ==> t == 2 * prev
                &&& op == 5 && level != Level::Medium && f == 1 ==> t == prev
                &&& op == 5 && level != Level::Medium && f == 2 ==> t == prev * prev
                &&& op == 6 && level == Level::Hard ==> t == fib((k + 5) as nat)
                &&& op == 6 && level != Level::Hard && prev < 0 ==> t == 0
                &&& op == 6 && level != Level::Hard && prev >= 0 ==> is_rounded_sqrt(prev, t)
                &&& op == 7 ==> t == fib((k + 8) as nat)
            },
{
    assert forall|k: int| 0 <= k < 4 implies {
        let prev = if k == 0 {
            start
        } else {
            r.0@[k - 1] as int
        };
        let t = #[trigger] r.0@[k] as int;
        let f = factors[k] as int;
        &&& op == 1 ==> t == prev + comp
        &&& op == 2 ==> t == prev - comp
        &&& op == 3 ==> t == prev * f
        &&& op == 4 && level == Level::Easy ==> t == 2 * prev
        &&& op == 4 && level != Level::Easy && prev >= 0 ==> f * t <= prev < f * t + f
        &&& op == 4 && level != Level::Easy && prev < 0 ==> f * t - f < prev <= f * t
        &&& op == 5 && level == Level::Medium ==> t == 2 * prev
        &&& op == 5 && level != Level::Medium && f == 1 ==> t == prev
        &&& op == 5 && level != Level::Medium && f == 2 ==> t == prev * prev
        &&& op == 6 && level == Level::Hard ==> t == fib((k + 5) as nat)
        &&& op == 6 && level != Level::Hard && prev < 0 ==> t == 0
        &&& op == 6 && level != Level::Hard && prev >= 0 ==> is_rounded_sqrt(prev, t)
        &&& op == 7 ==> t == fib((k + 8) as nat)
    } by {
        lemma_step(level, start, op, comp, factors, k as nat);
        assert(r.0@[k] == value_after(level, start, op, comp, factors, (k + 1) as nat));
        if k > 0 {
            assert(r.0@[k - 1] == value_after(level, start, op, comp, factors, k as nat));
        }
    }
}

/// The Fibonacci numbers that the hard and impossible patterns use follow
/// the Fibonacci recurrence.
pub proof fn lemma_fib_recurrence(n: nat)
    ensures
        fib(n + 2) == fib(n) + fib(n + 1),
{
    assert(fib(n + 2) == fib(((n + 2) - 2) as nat) + fib(((n + 2) - 1) as nat));
}

/// A pattern with rule `+` counts up from its first number in steps of the
/// complementary number: its `k`-th term is `first + k * complementary`.
pub proof fn lemma_addition_rule(level: Level, start: int, comp: int, factors: Seq<i32>, k: nat)
    ensures
        value_after(level, start, 1, comp, factors, k) == start + k * comp,
    decreases k,
{
    if k > 0 {
        lemma_addition_rule(level, start, comp, factors, (k - 1) as nat);
        assert(value_after(level, start, 1, comp, factors, k) == value_after(
            level,
            start,
            1,
            comp,
            factors,
            (k - 1) as nat,
        ) + comp);
        assert(start + (k - 1) * comp + comp == start + k * comp) by (nonlinear_arith);
    } else {
        assert(k * comp == 0) by (nonlinear_arith)
            requires
                k == 0,
        ;
    }
}

/// A pattern with rule `-` counts down from its first number in steps of the
/// complementary number: its `k`-th term is `first - k * complementary`.
pub proof fn lemma_subtraction_rule(level: Level, start: int, comp: int, factors: Seq<i32>, k: nat)
    ensures
        value_after(level, start, 2, comp, factors, k) == start - k * comp,
    decreases k,
{
    if k > 0 {
        lemma_subtraction_rule(level, start, comp, factors, (k - 1) as nat);
        assert(value_after(level, start, 2, comp, factors, k) == value_after(
            level,
            start,
            2,
            comp,
            factors,
            (k - 1) as nat,
        ) - comp);
        assert(start - (k - 1) * comp - comp == start - k * comp) by (nonlinear_arith);
    } else {
        assert(k * comp == 0) by (nonlinear_arith)
            requires
                k == 0,
        ;
    }
}

/// The doubling rules (`/` on the easy level, `^` on the medium level)
/// double the first number at every step: the `k`-th term is
/// `first * 2^k`.
pub proof fn lemma_doubling_rule(level: Level, start: int, op: int, comp: int, factors: Seq<i32>, k: nat)
    requires
        (level == Level::Easy && op == 4) || (level == Level::Medium && op == 5),
    ensures
        value_after(level, start, op, comp, factors, k) == start * int_pow(2, k),
    decreases k,
{
    if k > 0 {
        lemma_doubling_rule(level, start, op, comp, factors, (k - 1) as nat);
        assert(start * int_pow(2, (k - 1) as nat) * 2 == start * int_pow(2, k)) by (nonlinear_arith)
            requires
                int_pow(2, k) == 2 * int_pow(2, (k - 1) as nat),
        ;
    }
}

/// The Fibonacci rules give consecutive Fibonacci numbers, whatever the
/// first number: from the fifth on for the hard level, from the eighth on
/// for the impossible level. So each term past the second is the sum of the
/// two before it.
pub proof fn lemma_fibonacci_rule(level: Level, start: int, op: int, comp: int, factors: Seq<i32>, k: nat)
    requires
        (level == Level::Hard && op == 6) || (level == Level::Impossible && op == 7),
        k >= 1,
    ensures
        value_after(level, start, op, comp, factors, k) == fib(
            (k - 1 + if level == Level::Hard {
                5int
            } else {
                8int
            }) as nat,
        ),
        value_after(level, start, op, comp, factors, k + 2) == value_after(
            level,
            start,
            op,
            comp,
            factors,
            k,
        ) + value_after(level, start, op, comp, factors, k + 1),
{
    let base: nat = if level == Level::Hard {
        5
    } else {
        8
    };
    lemma_fib_recurrence((k - 1 + base) as nat);
}

} // verus!
