//! The throughput of the last minutes as a line of blocks.

use vstd::prelude::*;

verus! {

/// How long samples are kept, in milliseconds.
pub const ROLLING_WINDOW_MS: i64 = 600_000;

/// How many columns the line has on the panel.
pub const SPARKLINE_COLUMNS: usize = 48;

/// The block of a level from 0 to 7.
pub open spec fn block(level: int) -> char {
    if level <= 0 {
        '▁'
    } else if level == 1 {
        '▂'
    } else if level == 2 {
        '▃'
    } else if level == 3 {
        '▄'
    } else if level == 4 {
        '▅'
    } else if level == 5 {
        '▆'
    } else if level == 6 {
        '▇'
    } else {
        '█'
    }
}

fn block_char(level: u128) -> (r: char)
    ensures
        r == block(level as int),
{
    if level == 0 {
        '▁'
    } else if level == 1 {
        '▂'
    } else if level == 2 {
        '▃'
    } else if level == 3 {
        '▄'
    } else if level == 4 {
        '▅'
    } else if level == 5 {
        '▆'
    } else if level == 6 {
        '▇'
    } else {
        '█'
    }
}

/// A ratio rounded to a whole number; a half goes to the even one.
pub open spec fn nearest(p: nat, q: nat) -> nat {
    let whole = p / q;
    let rest = p % q;
    if 2 * rest < q || (2 * rest == q && whole % 2 == 0) {
        whole
    } else {
        whole + 1
    }
}

/// A whole number in double precision, with the last digit it keeps at `unit` or above.
pub open spec fn double_from(n: nat, unit: nat) -> nat
    decreases n - unit,
{
    if unit == 0 || n < unit * 0x20_0000_0000_0000 {
        nearest(n, unit) * unit
    } else {
        double_from(n, 2 * unit)
    }
}

/// A whole number in double precision.
pub open spec fn double_of(n: u64) -> nat {
    double_from(n as nat, 1)
}

/// A ratio in double precision, as a whole number of parts and the parts that make one: `p` is
/// doubled until the ratio has 53 binary digits.
pub open spec fn quotient(p: nat, q: nat, one: nat) -> (nat, nat)
    decreases q * 0x20_0000_0000_0000 - p,
{
    if p == 0 || p >= q * 0x10_0000_0000_0000 {
        (nearest(p, q), one)
    } else {
        quotient(2 * p, q, 2 * one)
    }
}

/// Seven times a number of 53 binary digits, in double precision.
pub open spec fn sevenfold(n: nat) -> nat {
    if 7 * n < 0x80_0000_0000_0000 {
        nearest(7 * n, 4) * 4
    } else {
        nearest(7 * n, 8) * 8
    }
}

/// The level of a value among values up to a largest one: seven times the share, rounded, with
/// halves rounded up. The share and its multiple are reckoned in double precision.
pub open spec fn level(value: u64, largest: u64) -> nat {
    if largest == 0 || value == 0 {
        0
    } else {
        let (parts, one) = quotient(double_of(value), double_of(largest), 1);
        (2 * sevenfold(parts) + one) / (2 * one)
    }
}

/// The largest of some values.
pub open spec fn largest(values: Seq<u64>) -> u64
    decreases values.len(),
{
    if values.len() == 0 {
        0
    } else if largest(values.drop_last()) >= values.last() {
        largest(values.drop_last())
    } else {
        values.last()
    }
}

/// The values as blocks, on the scale of the largest.
pub open spec fn blocks(values: Seq<u64>) -> Seq<char> {
    Seq::new(values.len(), |i: int| block(level(values[i], largest(values)) as int))
}

/// A window is at least a millisecond long.
pub open spec fn window_length(window_ms: i64) -> int {
    if window_ms < 1 {
        1
    } else {
        window_ms as int
    }
}

/// The start of the window that ends with the last sample.
pub open spec fn window_start(samples: Seq<(i64, u64)>, window_ms: i64) -> int {
    let end = if samples.len() == 0 {
        0
    } else {
        samples.last().0 as int
    };
    if end - window_length(window_ms) < i64::MIN {
        i64::MIN as int
    } else {
        end - window_length(window_ms)
    }
}

/// What a sample adds to the running total.
pub open spec fn gain(samples: Seq<(i64, u64)>, i: int) -> int {
    if i == 0 {
        samples[i].1 as int
    } else if samples[i].1 >= samples[i - 1].1 {
        samples[i].1 - samples[i - 1].1
    } else {
        0
    }
}

/// A number, or the largest that fits.
pub open spec fn at_most_i64(n: int) -> int {
    if n > i64::MAX {
        i64::MAX as int
    } else {
        n
    }
}

/// The column of a point in time that is not before the window's start.
pub open spec fn column(timestamp: i64, start: int, window_ms: i64, columns: int) -> int {
    let offset = at_most_i64(timestamp - start);
    let index = at_most_i64(offset * columns) / window_length(window_ms);
    if index > columns - 1 {
        columns - 1
    } else {
        index
    }
}

/// What the first samples add up to in a column.
pub open spec fn column_sum(
    samples: Seq<(i64, u64)>,
    n: int,
    start: int,
    window_ms: i64,
    columns: int,
    b: int,
) -> int
    decreases n,
{
    if n <= 0 {
        0
    } else {
        let before = column_sum(samples, n - 1, start, window_ms, columns, b);
        let sample = samples[n - 1];
        if sample.0 >= start && column(sample.0, start, window_ms, columns) == b {
            before + gain(samples, n - 1)
        } else {
            before
        }
    }
}

/// A sum, or the largest number that fits.
pub open spec fn at_most_u64(n: int) -> u64 {
    if n > u64::MAX {
        u64::MAX
    } else {
        n as u64
    }
}

/// The gains of the samples, by column.
pub open spec fn columns_of(samples: Seq<(i64, u64)>, window_ms: i64, columns: nat) -> Seq<u64> {
    Seq::new(
        columns,
        |b: int|
            at_most_u64(
                column_sum(
                    samples,
                    samples.len() as int,
                    window_start(samples, window_ms),
                    window_ms,
                    columns as int,
                    b,
                ),
            ),
    )
}

fn largest_value(values: &[u64]) -> (r: u64)
    ensures
        r == largest(values@),
        forall|i: int| 0 <= i < values@.len() ==> #[trigger] values@[i] <= r,
{
    let mut r: u64 = 0;
    let mut i: usize = 0;
    while i < values.len()
        invariant
            i <= values@.len(),
            r == largest(values@.take(i as int)),
            forall|k: int| 0 <= k < i ==> #[trigger] values@[k] <= r,
        decreases values@.len() - i,
    {
        proof {
            assert(values@.take(i + 1).drop_last() =~= values@.take(i as int));
        }
        if values[i] > r {
            r = values[i];
        }
        i = i + 1;
    }
    proof {
        assert(values@.take(values@.len() as int) =~= values@);
    }
    r
}

fn nearest_of(p: u128, q: u128) -> (r: u128)
    requires
        0 < q <= 0x2_0000_0000_0000_0000,
    ensures
        r == nearest(p as nat, q as nat),
        r <= p / q + 1,
{
    let whole: u128 = p / q;
    let rest: u128 = p % q;
    if 2 * rest < q || (2 * rest == q && whole % 2 == 0) {
        whole
    } else {
        proof {
            assert(whole <= p) by (nonlinear_arith)
                requires
                    whole == p / q,
                    q > 0,
            ;
            assert(rest == 0 || whole < p) by (nonlinear_arith)
                requires
                    whole == p / q,
                    rest == p % q,
                    q > 0,
            ;
        }
        whole + 1
    }
}

fn to_double(n: u64) -> (r: u128)
    ensures
        r == double_of(n),
        n <= 2 * r,
        r <= 2 * n,
{
    let mut unit: u128 = 1;
    while n as u128 >= unit * 0x20_0000_0000_0000
        invariant
            0 < unit <= 0x1000,
            unit == 1 || n >= unit * 0x10_0000_0000_0000,
            double_from(n as nat, unit as nat) == double_of(n),
        decreases n + 1 - unit,
    {
        unit = 2 * unit;
    }
    let parts: u128 = nearest_of(n as u128, unit);
    proof {
        lemma_double_is_near(n as nat, unit as nat);
    }
    parts * unit
}

fn level_of(value: u64, largest: u64) -> (r: u128)
    requires
        value <= largest,
    ensures
        r == level(value, largest),
{
    if largest == 0 || value == 0 {
        return 0;
    }
    let q: u128 = to_double(largest);
    let mut p: u128 = to_double(value);
    let mut one: u128 = 1;
    while p < q * 0x10_0000_0000_0000
        invariant
            0 < q <= 0x2_0000_0000_0000_0000,
            0 < one <= p < q * 0x20_0000_0000_0000,
            quotient(p as nat, q as nat, one as nat) == quotient(
                double_of(value),
                double_of(largest),
                1,
            ),
        decreases q * 0x20_0000_0000_0000 - p,
    {
        p = 2 * p;
        one = 2 * one;
    }
    let parts: u128 = nearest_of(p, q);
    let seven: u128 = if 7 * parts < 0x80_0000_0000_0000 {
        nearest_of(7 * parts, 4) * 4
    } else {
        nearest_of(7 * parts, 8) * 8
    };
    (2 * seven + one) / (2 * one)
}

/// The values as blocks, on the scale of the largest.
pub fn buckets_to_sparkline(buckets: &[u64]) -> (r: String)
    ensures
        r@ == blocks(buckets@),
{
    let top: u64 = largest_value(buckets);
    let mut out: String = String::new();
    let mut i: usize = 0;
    while i < buckets.len()
        invariant
            i <= buckets@.len(),
            top == largest(buckets@),
            forall|k: int| 0 <= k < buckets@.len() ==> #[trigger] buckets@[k] <= top,
            out@ == blocks(buckets@).take(i as int),
        decreases buckets@.len() - i,
    {
        out.push(block_char(level_of(buckets[i], top)));
        proof {
            assert(out@ =~= blocks(buckets@).take(i + 1));
        }
        i = i + 1;
    }
    out
}

fn column_of(timestamp: i64, start: i64, window: i64, columns: usize) -> (r: usize)
    requires
        timestamp >= start,
        window >= 1,
        0 < columns <= 0x7fff_ffff_ffff_ffff,
    ensures
        r == column(timestamp, start as int, window, columns as int),
        r < columns,
{
    let limit: i128 = 9_223_372_036_854_775_807;
    let mut offset: i128 = timestamp as i128 - start as i128;
    if offset > limit {
        offset = limit;
    }
    assert(0 <= offset * columns <= 0x7fff_ffff_ffff_ffff * 0x7fff_ffff_ffff_ffff)
        by (nonlinear_arith)
        requires
            0 <= offset <= 0x7fff_ffff_ffff_ffff,
            0 < columns <= 0x7fff_ffff_ffff_ffff,
    ;
    let mut product: i128 = offset * columns as i128;
    if product > limit {
        product = limit;
    }
    proof {
        assert(0 <= product / window as i128) by (nonlinear_arith)
            requires
                0 <= product,
                window >= 1,
        ;
    }
    let index: i128 = product / window as i128;
    let last: i128 = columns as i128 - 1;
    if index > last {
        last as usize
    } else {
        index as usize
    }
}

proof fn lemma_column_sum_grows(
    samples: Seq<(i64, u64)>,
    n: int,
    start: int,
    window_ms: i64,
    columns: int,
    b: int,
)
    ensures
        column_sum(samples, n, start, window_ms, columns, b) >= 0,
    decreases n,
{
    if n > 0 {
        lemma_column_sum_grows(samples, n - 1, start, window_ms, columns, b);
    }
}

/// The gains of the samples of a window as a line of blocks, one for each column.
pub fn compute_sparkline(samples: &[(i64, u64)], window_ms: i64, columns: usize) -> (r: String)
    requires
        columns * 8 <= isize::MAX,
    ensures
        r@ == blocks(columns_of(samples@, window_ms, columns as nat)),
        r@.len() == columns,
{
    let window: i64 = if window_ms < 1 {
        1
    } else {
        window_ms
    };
    let end: i64 = if samples.len() == 0 {
        0
    } else {
        samples[samples.len() - 1].0
    };
    let start: i64 = if end < i64::MIN + window {
        i64::MIN
    } else {
        end - window
    };
    let mut buckets: Vec<u64> = Vec::new();
    while buckets.len() < columns
        invariant
            buckets@.len() <= columns,
            forall|b: int| 0 <= b < buckets@.len() ==> #[trigger] buckets@[b] == 0,
        decreases columns - buckets@.len(),
    {
        buckets.push(0);
    }
    if columns == 0 {
        proof {
            assert(columns_of(samples@, window_ms, 0) =~= Seq::<u64>::empty());
            assert(blocks(columns_of(samples@, window_ms, 0)) =~= Seq::<char>::empty());
        }
        return String::new();
    }
    let mut i: usize = 0;
    while i < samples.len()
        invariant
            i <= samples@.len(),
            0 < columns,
            columns * 8 <= isize::MAX,
            window == window_length(window_ms),
            start == window_start(samples@, window_ms),
            buckets@.len() == columns,
            forall|b: int|
                0 <= b < columns ==> #[trigger] buckets@[b] == at_most_u64(
                    column_sum(samples@, i as int, start as int, window_ms, columns as int, b),
                ),
        decreases samples@.len() - i,
    {
        let (timestamp, total) = samples[i];
        let ghost before = buckets@;
        proof {
            assert forall|b: int| 0 <= b < columns implies column_sum(
                samples@,
                i as int,
                start as int,
                window_ms,
                columns as int,
                b,
            ) >= 0 by {
                lemma_column_sum_grows(
                    samples@,
                    i as int,
                    start as int,
                    window_ms,
                    columns as int,
                    b,
                );
            }
        }
        if timestamp >= start {
            let previous: u64 = if i == 0 {
                0
            } else {
                samples[i - 1].1
            };
            let delta: u64 = if total >= previous {
                total - previous
            } else {
                0
            };
            let at: usize = column_of(timestamp, start, window, columns);
            let current: u64 = buckets[at];
            let next: u64 = if delta > u64::MAX - current {
                u64::MAX
            } else {
                current + delta
            };
            buckets.set(at, next);
            proof {
                assert(delta == gain(samples@, i as int));
                assert(at == column(timestamp, start as int, window_ms, columns as int));
            }
        }
        proof {
            assert forall|b: int| 0 <= b < columns implies #[trigger] buckets@[b] == at_most_u64(
                column_sum(samples@, i + 1, start as int, window_ms, columns as int, b),
            ) by {
                assert(before[b] == at_most_u64(
                    column_sum(samples@, i as int, start as int, window_ms, columns as int, b),
                ));
            }
        }
        i = i + 1;
    }
    proof {
        assert(buckets@ =~= columns_of(samples@, window_ms, columns as nat));
    }
    buckets_to_sparkline(&buckets)
}

/// The earliest time of the samples that are kept.
pub open spec fn oldest_kept(now_ms: i64) -> int {
    if now_ms - ROLLING_WINDOW_MS < i64::MIN {
        i64::MIN as int
    } else {
        now_ms - ROLLING_WINDOW_MS
    }
}

/// Adds a sample and drops those that have left the window.
pub fn update_token_samples(samples: &[(i64, u64)], now_ms: i64, total_tokens: u64) -> (r: Vec<
    (i64, u64),
>)
    ensures
        r@ == samples@.filter(|sample: (i64, u64)| sample.0 >= oldest_kept(now_ms)).push(
            (now_ms, total_tokens),
        ),
{
    let oldest: i64 = if now_ms < i64::MIN + ROLLING_WINDOW_MS {
        i64::MIN
    } else {
        now_ms - ROLLING_WINDOW_MS
    };
    let ghost p = |sample: (i64, u64)| sample.0 >= oldest_kept(now_ms);
    let mut out: Vec<(i64, u64)> = Vec::new();
    let mut i: usize = 0;
    proof {
        reveal(Seq::filter);
        assert(out@ =~= samples@.take(0).filter(p));
    }
    while i < samples.len()
        invariant
            i <= samples@.len(),
            oldest == oldest_kept(now_ms),
            p == |sample: (i64, u64)| sample.0 >= oldest_kept(now_ms),
            out@ == samples@.take(i as int).filter(p),
        decreases samples@.len() - i,
    {
        let sample = samples[i];
        proof {
            reveal(Seq::filter);
            assert(samples@.take(i + 1).drop_last() =~= samples@.take(i as int));
            assert(samples@.take(i + 1).last() == samples@[i as int]);
        }
        if sample.0 >= oldest {
            out.push(sample);
        }
        i = i + 1;
    }
    proof {
        assert(samples@.take(samples@.len() as int) =~= samples@);
    }
    out.push((now_ms, total_tokens));
    out
}

/// The tokens that were used since the first sample, and the milliseconds that it took; none where
/// no time has passed.
pub open spec fn used_since_first(
    samples: Seq<(i64, u64)>,
    now_ms: i64,
    current_tokens: u64,
) -> Option<(int, int)> {
    if samples.len() == 0 || now_ms <= samples[0].0 {
        None
    } else {
        Some(
            (
                if current_tokens >= samples[0].1 {
                    current_tokens - samples[0].1
                } else {
                    0
                },
                at_most_i64(now_ms - samples[0].0),
            ),
        )
    }
}

/// The tokens that were used since the first sample, and the milliseconds that it took.
pub fn token_use(samples: &[(i64, u64)], now_ms: i64, current_tokens: u64) -> (r: Option<
    (u64, i64),
>)
    ensures
        match r {
            Some((tokens, millis)) => used_since_first(samples@, now_ms, current_tokens) == Some(
                (tokens as int, millis as int),
            ) && millis > 0,
            None => used_since_first(samples@, now_ms, current_tokens) is None,
        },
{
    if samples.len() == 0 {
        return None;
    }
    let (first_at, first_total) = samples[0];
    if now_ms <= first_at {
        return None;
    }
    let span: i128 = now_ms as i128 - first_at as i128;
    let millis: i64 = if span > 9_223_372_036_854_775_807 {
        i64::MAX
    } else {
        span as i64
    };
    let tokens: u64 = if current_tokens >= first_total {
        current_tokens - first_total
    } else {
        0
    };
    Some((tokens, millis))
}

/// After an update the last sample is the new one, and no sample is older than the window.
pub proof fn lemma_samples_stay_in_window(
    samples: Seq<(i64, u64)>,
    now_ms: i64,
    total_tokens: u64,
    i: int,
)
    ensures
        ({
            let updated = samples.filter(
                |sample: (i64, u64)| sample.0 >= oldest_kept(now_ms),
            ).push((now_ms, total_tokens));
            &&& updated.last() == (now_ms, total_tokens)
            &&& 0 <= i < updated.len() ==> updated[i].0 >= oldest_kept(now_ms)
        }),
{
    let p = |sample: (i64, u64)| sample.0 >= oldest_kept(now_ms);
    if 0 <= i < samples.filter(p).len() {
        samples.lemma_filter_pred(p, i);
    }
}

/// The unit after some doublings.
spec fn after_doublings(one: nat, left: nat) -> nat
    decreases left,
{
    if left == 0 {
        one
    } else {
        after_doublings(2 * one, (left - 1) as nat)
    }
}

proof fn lemma_doublings_grow(one: nat, left: nat)
    ensures
        after_doublings(one, left) >= one,
    decreases left,
{
    if left > 0 {
        lemma_doublings_grow(2 * one, (left - 1) as nat);
    }
}

proof fn lemma_whole_share(d: nat, one: nat, left: nat)
    requires
        d > 0,
        one > 0,
        after_doublings(one, left) == 0x10_0000_0000_0000,
    ensures
        quotient(d * one, d, one) == (0x10_0000_0000_0000nat, 0x10_0000_0000_0000nat),
    decreases left,
{
    assert(d * one > 0) by (nonlinear_arith)
        requires
            d > 0,
            one > 0,
    ;
    if left == 0 {
        assert((d * one) / d == one && (d * one) % d == 0) by (nonlinear_arith)
            requires
                d > 0,
        ;
    } else {
        lemma_doublings_grow(2 * one, (left - 1) as nat);
        assert(d * one < d * 0x10_0000_0000_0000) by (nonlinear_arith)
            requires
                d > 0,
                2 * one <= 0x10_0000_0000_0000,
                one > 0,
        ;
        assert(2 * (d * one) == d * (2 * one)) by (nonlinear_arith);
        lemma_whole_share(d, 2 * one, (left - 1) as nat);
    }
}

proof fn lemma_double_is_near(n: nat, unit: nat)
    requires
        unit > 0,
        unit == 1 || n >= unit * 0x10_0000_0000_0000,
    ensures
        n <= 2 * double_from(n, unit),
        double_from(n, unit) <= 2 * n,
    decreases n - unit,
{
    if n < unit * 0x20_0000_0000_0000 {
        let whole = n / unit;
        let rest = n % unit;
        assert(n == whole * unit + rest && rest < unit) by (nonlinear_arith)
            requires
                unit > 0,
                whole == n / unit,
                rest == n % unit,
        ;
        assert((whole + 1) * unit == whole * unit + unit) by (nonlinear_arith);
    } else {
        lemma_double_is_near(n, 2 * unit);
    }
}

/// The column with the largest gain is drawn as a full block, and one without gain as the lowest.
pub proof fn lemma_scale(values: Seq<u64>, i: int)
    requires
        0 <= i < values.len(),
    ensures
        values[i] == 0 ==> blocks(values)[i] == '▁',
        values[i] == largest(values) && values[i] > 0 ==> blocks(values)[i] == '█',
{
    if values[i] == largest(values) && values[i] > 0 {
        let d = double_of(values[i]);
        lemma_double_is_near(values[i] as nat, 1);
        reveal_with_fuel(after_doublings, 53);
        assert(after_doublings(1, 52) == 0x10_0000_0000_0000);
        lemma_whole_share(d, 1, 52);
        assert(d * 1 == d);
        assert(sevenfold(0x10_0000_0000_0000) == 7 * 0x10_0000_0000_0000nat);
        let (parts, one) = quotient(d, d, 1);
        assert(parts == 0x10_0000_0000_0000 && one == 0x10_0000_0000_0000);
        assert((2 * sevenfold(parts) + one) / (2 * one) == 7) by (nonlinear_arith)
            requires
                sevenfold(parts) == 7 * one,
                one > 0,
        ;
    }
}

/// A ratio is rounded to a whole number that is not further away than a half.
pub proof fn lemma_nearest_is_near(p: nat, q: nat)
    requires
        q > 0,
    ensures
        2 * (q * nearest(p, q) - p) <= q,
        2 * (p - q * nearest(p, q)) <= q,
{
    let whole = p / q;
    let rest = p % q;
    assert(p == q * whole + rest && 0 <= rest < q) by (nonlinear_arith)
        requires
            q > 0,
            whole == p / q,
            rest == p % q,
    ;
    assert(q * (whole + 1) == q * whole + q) by (nonlinear_arith);
}

proof fn lemma_quotient_is_scaled(v: nat, q: nat, one: nat) -> (scale: nat)
    requires
        v > 0,
        q > 0,
        one > 0,
        v * one < q * 0x20_0000_0000_0000,
    ensures
        quotient(v * one, q, one) == (nearest(v * scale, q), scale),
        q * 0x10_0000_0000_0000 <= v * scale,
    decreases q * 0x20_0000_0000_0000 - v * one,
{
    assert(v * one > 0) by (nonlinear_arith)
        requires
            v > 0,
            one > 0,
    ;
    if v * one >= q * 0x10_0000_0000_0000 {
        one
    } else {
        assert(2 * (v * one) == v * (2 * one)) by (nonlinear_arith);
        lemma_quotient_is_scaled(v, q, 2 * one)
    }
}

/// The level of a value is seven times its share of the largest one, to the nearest whole number.
pub proof fn lemma_level_is_nearest(value: u64, largest: u64)
    requires
        value <= largest,
        0 < largest < 0x1_0000_0000_0000,
    ensures
        2 * (level(value, largest) * largest - 7 * value) <= largest,
        2 * (7 * value - level(value, largest) * largest) <= largest,
{
    if value == 0 {
        assert(level(value, largest) * largest == 0) by (nonlinear_arith)
            requires
                level(value, largest) == 0,
        ;
    } else {
        let v = value as nat;
        let q = largest as nat;
        assert(nearest(v, 1) == v);
        assert(nearest(q, 1) == q);
        assert(double_of(value) == v);
        assert(double_of(largest) == q);
        assert(v * 1 == v);
        let one = lemma_quotient_is_scaled(v, q, 1);
        let parts = nearest(v * one, q);
        assert(quotient(double_of(value), double_of(largest), 1) == (parts, one));
        assert(one >= 0x10_0000_0000_0000) by (nonlinear_arith)
            requires
                v <= q,
                q * 0x10_0000_0000_0000 <= v * one,
                q > 0,
        ;
        lemma_nearest_is_near(v * one, q);
        let s = sevenfold(parts);
        lemma_nearest_is_near(7 * parts, 4);
        lemma_nearest_is_near(7 * parts, 8);
        assert(-4 <= s - 7 * parts <= 4);
        let l = level(value, largest);
        assert(l == (2 * s + one) / (2 * one));
        assert(2 * one * l <= 2 * s + one < 2 * one * (l + 1)) by (nonlinear_arith)
            requires
                one > 0,
                l == (2 * s + one) / (2 * one),
        ;
        lemma_level_bounds(v as int, q as int, one as int, parts as int, s as int, l as int);
    }
}

proof fn lemma_level_bounds(v: int, q: int, one: int, parts: int, s: int, l: int)
    requires
        0 < q < 0x1_0000_0000_0000,
        one >= 0x10_0000_0000_0000,
        2 * (q * parts - v * one) <= q,
        2 * (v * one - q * parts) <= q,
        -4 <= s - 7 * parts <= 4,
        2 * one * l <= 2 * s + one,
        2 * s + one < 2 * one * (l + 1),
    ensures
        2 * (l * q - 7 * v) <= q,
        2 * (7 * v - l * q) <= q,
{
    let x = 2 * (l * q - 7 * v);
    assert((2 * one * l - 2 * s) * q <= one * q) by (nonlinear_arith)
        requires
            2 * one * l <= 2 * s + one,
            q > 0,
    ;
    assert((2 * one * l - 2 * s) * q >= -(one * q)) by (nonlinear_arith)
        requires
            2 * s + one < 2 * one * (l + 1),
            q > 0,
    ;
    assert((2 * s - 14 * parts) * q <= 8 * q) by (nonlinear_arith)
        requires
            s - 7 * parts <= 4,
            q > 0,
    ;
    assert((2 * s - 14 * parts) * q >= -8 * q) by (nonlinear_arith)
        requires
            s - 7 * parts >= -4,
            q > 0,
    ;
    assert(x * one == (2 * one * l - 2 * s) * q + (2 * s - 14 * parts) * q + 14 * (q * parts - v
        * one)) by (nonlinear_arith)
        requires
            x == 2 * (l * q - 7 * v),
    ;
    assert(x * one <= one * q + 15 * q);
    assert(x * one >= -(one * q) - 15 * q);
    assert(x <= q) by (nonlinear_arith)
        requires
            x * one <= one * q + 15 * q,
            15 * q < one,
            one > 0,
    ;
    assert(-x <= q) by (nonlinear_arith)
        requires
            x * one >= -(one * q) - 15 * q,
            15 * q < one,
            one > 0,
    ;
}

/// The largest value is one of the values, and none is larger.
pub proof fn lemma_largest_is_reached(values: Seq<u64>, i: int)
    requires
        0 <= i < values.len(),
    ensures
        values[i] <= largest(values),
        exists|k: int| 0 <= k < values.len() && #[trigger] values[k] == largest(values),
    decreases values.len(),
{
    let front = values.drop_last();
    assert(values[values.len() - 1] == values.last());
    if front.len() > 0 {
        let j = if i < front.len() {
            i
        } else {
            0
        };
        assert(front[j] == values[j]);
        lemma_largest_is_reached(front, j);
        let k = choose|k: int| 0 <= k < front.len() && #[trigger] front[k] == largest(front);
        assert(values[k] == front[k]);
    } else {
        assert(largest(front) == 0);
    }
}

/// There is one block for each value, and it is that of the value's level; a higher level has a
/// higher block.
pub proof fn lemma_blocks_follow_levels(values: Seq<u64>, i: int, low: int, high: int)
    requires
        0 <= i < values.len(),
        0 <= low < high <= 7,
    ensures
        blocks(values).len() == values.len(),
        blocks(values)[i] == block(level(values[i], largest(values)) as int),
        block(0) == '▁',
        block(7) == '█',
        (block(low) as u32) < (block(high) as u32),
        block(high) as u32 - block(low) as u32 == high - low,
{
}

/// A sample adds what the total has grown by since the one before, the first one all of it, and none
/// adds less than nothing.
pub proof fn lemma_gain_is_the_growth(samples: Seq<(i64, u64)>, i: int)
    requires
        0 <= i < samples.len(),
    ensures
        gain(samples, i) >= 0,
        i == 0 ==> gain(samples, i) == samples[0].1,
        i > 0 && samples[i].1 >= samples[i - 1].1 ==> samples[i - 1].1 + gain(samples, i)
            == samples[i].1,
        i > 0 && samples[i].1 < samples[i - 1].1 ==> gain(samples, i) == 0,
{
}

/// A point in time of the window has a column of the line, by its share of the window; the end of the
/// window belongs to the last column.
pub proof fn lemma_column_is_the_share(start: i64, offset: int, window_ms: i64, columns: int)
    requires
        window_ms > 0,
        0 <= offset <= window_ms,
        start + offset <= i64::MAX,
        0 < columns,
        window_ms * columns <= i64::MAX,
    ensures
        ({
            let c = column((start + offset) as i64, start as int, window_ms, columns);
            &&& 0 <= c < columns
            &&& offset < window_ms ==> c * window_ms <= offset * columns < (c + 1) * window_ms
            &&& offset == window_ms ==> c == columns - 1
        }),
{
    let n = offset * columns;
    let w = window_ms as int;
    assert(0 <= n <= w * columns) by (nonlinear_arith)
        requires
            0 <= offset <= w,
            0 < columns,
            n == offset * columns,
    ;
    let index = n / w;
    assert(index * w <= n < (index + 1) * w) by (nonlinear_arith)
        requires
            w > 0,
            index == n / w,
    ;
    assert(index >= 0) by (nonlinear_arith)
        requires
            n >= 0,
            w > 0,
            index == n / w,
    ;
    if offset < w {
        assert(index < columns) by (nonlinear_arith)
            requires
                index * w <= n,
                n == offset * columns,
                offset < w,
                columns > 0,
                w > 0,
        ;
    } else {
        assert(index == columns) by (nonlinear_arith)
            requires
                n == w * columns,
                w > 0,
                index == n / w,
        ;
    }
}

/// A column has the gains of the samples that fall into it: a further sample adds its gain to its own
/// column, and one from before the window to none.
pub proof fn lemma_sample_counts_in_its_column(
    samples: Seq<(i64, u64)>,
    n: int,
    start: int,
    window_ms: i64,
    columns: int,
    b: int,
)
    requires
        0 <= n < samples.len(),
    ensures
        ({
            let before = column_sum(samples, n, start, window_ms, columns, b);
            let after = column_sum(samples, n + 1, start, window_ms, columns, b);
            let own = column(samples[n].0, start, window_ms, columns);
            &&& samples[n].0 >= start && own == b ==> after == before + gain(samples, n)
            &&& samples[n].0 >= start && own != b ==> after == before
            &&& samples[n].0 < start ==> after == before
        }),
        column_sum(samples, 0, start, window_ms, columns, b) == 0,
{
}

/// The line covers the window that ends with the last sample, column by column.
pub proof fn lemma_line_covers_the_window(
    samples: Seq<(i64, u64)>,
    window_ms: i64,
    columns: nat,
    b: int,
)
    requires
        samples.len() > 0,
        window_ms > 0,
        0 <= b < columns,
    ensures
        columns_of(samples, window_ms, columns).len() == columns,
        samples.last().0 - window_ms >= i64::MIN ==> window_start(samples, window_ms)
            == samples.last().0 - window_ms,
        ({
            let sum = column_sum(
                samples,
                samples.len() as int,
                window_start(samples, window_ms),
                window_ms,
                columns as int,
                b,
            );
            &&& 0 <= sum <= u64::MAX ==> columns_of(samples, window_ms, columns)[b] == sum
            &&& sum > u64::MAX ==> columns_of(samples, window_ms, columns)[b] == u64::MAX
        }),
{
}

/// Samples are kept for ten minutes.
pub proof fn lemma_samples_are_kept(now_ms: i64)
    ensures
        now_ms - 600_000 >= i64::MIN ==> oldest_kept(now_ms) == now_ms - 600_000,
        now_ms - 600_000 < i64::MIN ==> oldest_kept(now_ms) == i64::MIN,
{
}

/// What was used is counted from the first sample on, over the time since it; without a sample, or
/// without time, nothing is.
pub proof fn lemma_use_is_counted(samples: Seq<(i64, u64)>, now_ms: i64, current_tokens: u64)
    ensures
        samples.len() == 0 ==> used_since_first(samples, now_ms, current_tokens) is None,
        samples.len() > 0 && now_ms <= samples[0].0 ==> used_since_first(
            samples,
            now_ms,
            current_tokens,
        ) is None,
        samples.len() > 0 && samples[0].0 < now_ms && now_ms - samples[0].0 <= i64::MAX
            && current_tokens >= samples[0].1 ==> used_since_first(samples, now_ms, current_tokens)
            == Some((current_tokens - samples[0].1, now_ms - samples[0].0)),
        samples.len() > 0 && samples[0].0 < now_ms && now_ms - samples[0].0 <= i64::MAX
            && current_tokens < samples[0].1 ==> used_since_first(samples, now_ms, current_tokens)
            == Some((0int, now_ms - samples[0].0)),
{
}

} // verus!
