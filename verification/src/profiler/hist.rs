use vstd::prelude::*;
use vstd::arithmetic::power2::{
    pow2, lemma_pow2_unfold, lemma_pow2_pos, lemma2_to64, lemma2_to64_rest,
    lemma_pow2_strictly_increases,
};
use vstd::arithmetic::div_mod::lemma_mul_mod_noop_right;
use crate::text::{decimal, push_char, push_decimal, u64_to_decimal};
use crate::tui::widgets::table::{
    BorderPreset, table_header, table_rows, texts, new_table, load_preset, set_header, add_row,
    table_right_aligned, table_width, table_plain, table_border,
};

verus! {

/// 2^64, the modulus of `u64` arithmetic.
pub open spec fn u64_modulus() -> int {
    0x1_0000_0000_0000_0000
}

/// The latency (in nanoseconds) that a histogram bucket stands for.
///
/// The first 16 buckets are exact; from there on every group of 8 buckets
/// covers one power of two, split into 8 equal steps (a log-linear scale).
/// The value is reduced modulo 2^64, as `u64` arithmetic does.
pub open spec fn bucket_value(bucket: int) -> int {
    if bucket < 16 {
        bucket
    } else {
        ((8 + bucket % 8) * pow2((bucket / 8 - 1) as nat)) % u64_modulus()
    }
}

/// Shifting left by `s` multiplies by 2^s modulo 2^64.
proof fn lemma_shl_is_mul_mod(x: u64, s: u64)
    requires
        s < 64,
    ensures
        (x << s) as int == (x as int * pow2(s as nat)) % u64_modulus(),
    decreases s,
{
    if s == 0 {
        assert(x << 0u64 == x) by (bit_vector);
        lemma2_to64();
        assert(x as int * pow2(0) == x as int);
    } else {
        let y: u64 = x << ((s - 1) as u64);
        assert(x << s == (x << ((s - 1) as u64)) << 1u64) by (bit_vector)
            requires
                1 <= s < 64,
        ;
        assert((y << 1u64) as int == if y < 0x8000_0000_0000_0000u64 {
            2 * y
        } else {
            2 * y - 0x1_0000_0000_0000_0000
        }) by (bit_vector);
        assert((y << 1u64) as int == (2 * y) % u64_modulus());
        lemma_shl_is_mul_mod(x, (s - 1) as u64);
        let p = pow2((s - 1) as nat);
        lemma_pow2_pos((s - 1) as nat);
        lemma_pow2_unfold(s as nat);
        lemma_mul_mod_noop_right(2, x as int * p, u64_modulus());
        assert(2 * (x as int * p) == x as int * pow2(s as nat)) by (nonlinear_arith)
            requires
                pow2(s as nat) == 2 * p,
        ;
        assert((x << s) as int == (2 * ((x as int * p) % u64_modulus())) % u64_modulus());
        assert((2 * ((x as int * p) % u64_modulus())) % u64_modulus() == (2 * (x as int * p)) % u64_modulus());
    }
}

/// The latency value of a bucket index: exact below 16, log-linear above.
pub fn bucket_to_value(bucket: usize) -> (value: u64)
    requires
        bucket < 520,
    ensures
        value == bucket_value(bucket as int),
{
    if bucket < 16 {
        bucket as u64
    } else {
        let log = bucket / 8 + 2;
        assert(bucket & 0b111 == bucket % 8) by (bit_vector);
        let mantissa = ((bucket & 0b111) + 8) as u64;
        proof {
            lemma_shl_is_mul_mod(mantissa, (log - 3) as u64);
        }
        mantissa << (log - 3)
    }
}


/// The label of a latency: whole nanoseconds below a microsecond, then whole
/// microseconds, milliseconds and seconds (always rounded down).
pub open spec fn format_ns_spec(ns: nat) -> Seq<char> {
    if ns < 1000 {
        decimal(ns) + seq![' ', 'n', 's']
    } else if ns < 1_000_000 {
        decimal(ns / 1000) + seq![' ', 'u', 's']
    } else if ns < 1_000_000_000 {
        decimal(ns / 1_000_000) + seq![' ', 'm', 's']
    } else {
        decimal(ns / 1_000_000_000) + seq![' ', 's']
    }
}

/// Formats a latency in nanoseconds with the largest unit it reaches.
pub fn format_ns(ns: u64) -> (label: String)
    ensures
        label@ == format_ns_spec(ns as nat),
{
    let mut label = String::new();
    if ns < 1000 {
        push_decimal(&mut label, ns);
        push_char(&mut label, ' ');
        push_char(&mut label, 'n');
        push_char(&mut label, 's');
    } else if ns < 1_000_000 {
        push_decimal(&mut label, ns / 1000);
        push_char(&mut label, ' ');
        push_char(&mut label, 'u');
        push_char(&mut label, 's');
    } else if ns < 1_000_000_000 {
        push_decimal(&mut label, ns / 1_000_000);
        push_char(&mut label, ' ');
        push_char(&mut label, 'm');
        push_char(&mut label, 's');
    } else {
        push_decimal(&mut label, ns / 1_000_000_000);
        push_char(&mut label, ' ');
        push_char(&mut label, 's');
    }
    assert(label@ =~= format_ns_spec(ns as nat));
    label
}


/// A table of a summary: a header row naming the percentiles and the sample
/// count, and one row of their values.
pub fn summary_to_table(summary: &Summary) -> (t: comfy_table::Table)
    ensures
        table_header(t) == Some(seq!["min"@, "p50"@, "p90"@, "p99"@, "max"@, "# samples"@]),
        table_rows(t) == seq![
            seq![
                format_ns_spec(summary.min as nat),
                format_ns_spec(summary.p50 as nat),
                format_ns_spec(summary.p90 as nat),
                format_ns_spec(summary.p99 as nat),
                format_ns_spec(summary.max as nat),
                decimal(summary.samples as nat),
            ],
        ],
        table_right_aligned(t) == Set::<nat>::empty(),
        table_width(t) is None,
        table_plain(t),
        table_border(t) == Some(BorderPreset::Full),
{
    let mut table = new_table();
    load_preset(&mut table, BorderPreset::Full);
    let mut header: Vec<String> = Vec::new();
    header.push(String::from_str("min"));
    header.push(String::from_str("p50"));
    header.push(String::from_str("p90"));
    header.push(String::from_str("p99"));
    header.push(String::from_str("max"));
    header.push(String::from_str("# samples"));
    assert(texts(header@) =~= seq!["min"@, "p50"@, "p90"@, "p99"@, "max"@, "# samples"@]);
    set_header(&mut table, header);
    let mut row: Vec<String> = Vec::new();
    row.push(format_ns(summary.min));
    row.push(format_ns(summary.p50));
    row.push(format_ns(summary.p90));
    row.push(format_ns(summary.p99));
    row.push(format_ns(summary.max));
    row.push(u64_to_decimal(summary.samples));
    let ghost cells = texts(row@);
    assert(cells =~= seq![
        format_ns_spec(summary.min as nat),
        format_ns_spec(summary.p50 as nat),
        format_ns_spec(summary.p90 as nat),
        format_ns_spec(summary.p99 as nat),
        format_ns_spec(summary.max as nat),
        decimal(summary.samples as nat),
    ]);
    add_row(&mut table, row);
    assert(table_rows(table) =~= seq![cells]);
    table
}

/// The number of buckets of a histogram.
pub const NUM_BUCKETS: usize = 512;

/// Counts of latency samples, one per log-linear bucket (see `bucket_value`).
pub struct Histogram {
    buckets: Vec<u64>,
}

/// The latency percentiles of a histogram, each the value of the bucket that
/// holds the sample of that rank, and the number of samples.
#[derive(Debug, Clone, Copy, PartialEq, Eq, Structural)]
pub struct Summary {
    pub min: u64,
    pub p50: u64,
    pub p90: u64,
    pub p99: u64,
    pub max: u64,
    pub samples: u64,
}

impl Default for Summary {
    fn default() -> (s: Summary)
        ensures
            s == (Summary { min: 0, p50: 0, p90: 0, p99: 0, max: 0, samples: 0 }),
    {
        Summary { min: 0, p50: 0, p90: 0, p99: 0, max: 0, samples: 0 }
    }
}

impl View for Histogram {
    type V = Seq<u64>;

    closed spec fn view(&self) -> Seq<u64> {
        self.buckets@
    }
}

impl Histogram {
    #[verifier::type_invariant]
    spec fn has_all_buckets(self) -> bool {
        self.buckets.len() == NUM_BUCKETS
    }
}

/// The number of samples in the buckets below `k`.
pub open spec fn count_below(b: Seq<u64>, k: int) -> int
    decreases k,
{
    if k <= 0 {
        0
    } else {
        count_below(b, k - 1) + b[k - 1]
    }
}

/// The number of samples in a histogram.
pub open spec fn total(b: Seq<u64>) -> int {
    count_below(b, b.len() as int)
}

/// Bucket `k` holds the sample of rank `r` (0-based, samples in bucket order).
pub open spec fn holds_rank(b: Seq<u64>, r: int, k: int) -> bool {
    &&& 0 <= k < b.len()
    &&& count_below(b, k) <= r < count_below(b, k + 1)
}

/// The bucket that holds the sample of rank `r`.
pub open spec fn rank_bucket(b: Seq<u64>, r: int) -> int {
    choose|k: int| holds_rank(b, r, k)
}

/// The summary of a non-empty histogram: the smallest sample, the samples of
/// rank ⌊n/2⌋, ⌊9n/10⌋ and ⌊99n/100⌋, the largest sample, and the count n.
pub open spec fn summary_of(b: Seq<u64>) -> Summary {
    let n = total(b);
    Summary {
        min: bucket_value(rank_bucket(b, 0)) as u64,
        p50: bucket_value(rank_bucket(b, n / 2)) as u64,
        p90: bucket_value(rank_bucket(b, n * 9 / 10)) as u64,
        p99: bucket_value(rank_bucket(b, n * 99 / 100)) as u64,
        max: bucket_value(rank_bucket(b, n - 1)) as u64,
        samples: n as u64,
    }
}

/// More buckets never hold fewer samples.
pub proof fn lemma_count_below_monotone(b: Seq<u64>, i: int, j: int)
    requires
        i <= j,
    ensures
        count_below(b, i) <= count_below(b, j),
    decreases j - i,
{
    if i < j {
        lemma_count_below_monotone(b, i, j - 1);
    }
}

/// At most one bucket holds a given rank.
pub proof fn lemma_rank_unique(b: Seq<u64>, r: int, k1: int, k2: int)
    requires
        holds_rank(b, r, k1),
        holds_rank(b, r, k2),
    ensures
        k1 == k2,
{
    if k1 < k2 {
        lemma_count_below_monotone(b, k1 + 1, k2);
    } else if k2 < k1 {
        lemma_count_below_monotone(b, k2 + 1, k1);
    }
}

/// A bucket that holds rank `r` is the rank bucket of `r`.
pub proof fn lemma_rank_bucket_is(b: Seq<u64>, r: int, k: int)
    requires
        holds_rank(b, r, k),
    ensures
        rank_bucket(b, r) == k,
{
    lemma_rank_unique(b, r, k, rank_bucket(b, r));
}

/// Some bucket holds every rank below the number of samples.
pub proof fn lemma_rank_exists(b: Seq<u64>, r: int)
    requires
        0 <= r < total(b),
    ensures
        holds_rank(b, r, rank_bucket(b, r)),
{
    let k = lemma_rank_below(b, r, b.len() as int);
    lemma_rank_bucket_is(b, r, k);
}

proof fn lemma_rank_below(b: Seq<u64>, r: int, k: int) -> (j: int)
    requires
        0 <= r,
        0 <= k <= b.len(),
        count_below(b, k) > r,
    ensures
        j < k,
        holds_rank(b, r, j),
    decreases k,
{
    if count_below(b, k - 1) <= r {
        k - 1
    } else {
        lemma_rank_below(b, r, k - 1)
    }
}

/// A higher rank never lies in a lower bucket.
pub proof fn lemma_rank_bucket_monotone(b: Seq<u64>, r1: int, r2: int)
    requires
        0 <= r1 <= r2 < total(b),
    ensures
        rank_bucket(b, r1) <= rank_bucket(b, r2),
{
    lemma_rank_exists(b, r1);
    lemma_rank_exists(b, r2);
    let k1 = rank_bucket(b, r1);
    let k2 = rank_bucket(b, r2);
    if k2 < k1 {
        lemma_count_below_monotone(b, k2 + 1, k1);
    }
}

/// The percentile ranks of a summary come in order: the buckets of the
/// minimum, the 50th, 90th and 99th percentiles and the maximum never decrease.
pub proof fn lemma_percentile_buckets_ordered(b: Seq<u64>)
    requires
        total(b) > 0,
    ensures
        0 <= rank_bucket(b, 0),
        rank_bucket(b, 0) <= rank_bucket(b, total(b) / 2),
        rank_bucket(b, total(b) / 2) <= rank_bucket(b, total(b) * 9 / 10),
        rank_bucket(b, total(b) * 9 / 10) <= rank_bucket(b, total(b) * 99 / 100),
        rank_bucket(b, total(b) * 99 / 100) <= rank_bucket(b, total(b) - 1),
        rank_bucket(b, total(b) - 1) < b.len(),
{
    let n = total(b);
    assert(0 <= n / 2 <= n * 9 / 10 <= n * 99 / 100 <= n - 1) by (nonlinear_arith)
        requires
            n > 0,
    ;
    lemma_rank_exists(b, 0);
    lemma_rank_exists(b, n - 1);
    lemma_rank_bucket_monotone(b, 0, n / 2);
    lemma_rank_bucket_monotone(b, n / 2, n * 9 / 10);
    lemma_rank_bucket_monotone(b, n * 9 / 10, n * 99 / 100);
    lemma_rank_bucket_monotone(b, n * 99 / 100, n - 1);
}

/// Bucket values grow with the bucket, up to the buckets whose value wraps
/// around 2^64 (from bucket 496 on).
pub proof fn lemma_bucket_value_step(k: int)
    requires
        0 <= k,
        k + 1 < 496,
    ensures
        0 <= bucket_value(k) < bucket_value(k + 1) < u64_modulus(),
{
    lemma2_to64();
    lemma2_to64_rest();
    if k + 1 < 16 {
    } else if k == 15 {
        assert(((16int / 8 - 1) as nat) == 1nat);
        assert(16int % 8 == 0);
        assert(pow2(((16int / 8 - 1) as nat)) == 2);
        assert((8int * 2) % u64_modulus() == 16);
        assert(bucket_value(16) == 16);
    } else {
        let g = k / 8;
        assert(1 <= g <= 61);
        lemma_pow2_pos((g - 1) as nat);
        if g - 1 < 60 {
            lemma_pow2_strictly_increases((g - 1) as nat, 60);
        }
        let p = pow2((g - 1) as nat);
        if (k + 1) % 8 != 0 {
            assert((k + 1) / 8 == g);
            assert((8 + k % 8) * p < (8 + (k + 1) % 8) * p < u64_modulus()) by (nonlinear_arith)
                requires
                    (k + 1) % 8 == k % 8 + 1,
                    k % 8 < 7,
                    0 < p <= pow2(60),
                    pow2(60) == 0x1000_0000_0000_0000,
            ;
        } else {
            assert(k % 8 == 7 && (k + 1) / 8 == g + 1 && g <= 60);
            if g - 1 < 59 {
                lemma_pow2_strictly_increases((g - 1) as nat, 59);
            }
            lemma_pow2_unfold(g as nat);
            assert(pow2(g as nat) == 2 * p);
            assert((8 + k % 8) * p < 8 * pow2(g as nat) < u64_modulus()) by (nonlinear_arith)
                requires
                    k % 8 == 7,
                    pow2(g as nat) == 2 * p,
                    0 < p <= pow2(59),
                    pow2(59) == 0x800_0000_0000_0000,
            ;

        }
    }
}

/// Bucket values never decrease below bucket 496.
pub proof fn lemma_bucket_value_monotone(k1: int, k2: int)
    requires
        0 <= k1 <= k2 < 496,
    ensures
        bucket_value(k1) <= bucket_value(k2),
    decreases k2 - k1,
{
    if k1 < k2 {
        lemma_bucket_value_step(k2 - 1);
        lemma_bucket_value_monotone(k1, k2 - 1);
    }
}

/// The latencies of a summary come in order, min ≤ p50 ≤ p90 ≤ p99 ≤ max, as
/// long as no sample lies in a bucket whose value wraps around (496 and up).
pub proof fn lemma_summary_ordered(b: Seq<u64>)
    requires
        total(b) > 0,
        forall|k: int| 496 <= k < b.len() ==> b[k] == 0,
    ensures
        summary_of(b).min <= summary_of(b).p50,
        summary_of(b).p50 <= summary_of(b).p90,
        summary_of(b).p90 <= summary_of(b).p99,
        summary_of(b).p99 <= summary_of(b).max,
{
    let n = total(b);
    lemma_percentile_buckets_ordered(b);
    let top = rank_bucket(b, n - 1);
    lemma_rank_exists(b, n - 1);
    if top >= 496 {
        // Nothing lies at or above bucket 496, so all samples lie below it.
        lemma_empty_tail(b, 496);
        lemma_count_below_monotone(b, 496, top);
        assert(false);
    }
    lemma_bucket_value_monotone(rank_bucket(b, 0), rank_bucket(b, n / 2));
    lemma_bucket_value_monotone(rank_bucket(b, n / 2), rank_bucket(b, n * 9 / 10));
    lemma_bucket_value_monotone(rank_bucket(b, n * 9 / 10), rank_bucket(b, n * 99 / 100));
    lemma_bucket_value_monotone(rank_bucket(b, n * 99 / 100), top);
}

/// Empty buckets from `k` on add nothing to the count.
proof fn lemma_empty_tail(b: Seq<u64>, k: int)
    requires
        0 <= k <= b.len(),
        forall|j: int| k <= j < b.len() ==> b[j] == 0,
    ensures
        count_below(b, k) == total(b),
    decreases b.len() - k,
{
    if k < b.len() {
        lemma_empty_tail(b, k + 1);
    }
}

/// A histogram whose buckets are all empty holds no sample.
pub proof fn lemma_empty_histogram(b: Seq<u64>)
    requires
        forall|k: int| 0 <= k < b.len() ==> b[k] == 0,
    ensures
        total(b) == 0,
{
    lemma_empty_tail(b, 0);
}

/// Adding `c` samples to one bucket adds `c` to the number of samples.
pub proof fn lemma_add_counts(b: Seq<u64>, k: int, c: u64)
    requires
        0 <= k < b.len(),
        b[k] + c <= u64::MAX,
    ensures
        total(b.update(k, (b[k] + c) as u64)) == total(b) + c,
{
    lemma_add_counts_below(b, k, c, b.len() as int);
}

proof fn lemma_add_counts_below(b: Seq<u64>, k: int, c: u64, j: int)
    requires
        0 <= k < b.len(),
        0 <= j <= b.len(),
        b[k] + c <= u64::MAX,
    ensures
        count_below(b.update(k, (b[k] + c) as u64), j) == count_below(b, j) + if j > k {
            c as int
        } else {
            0
        },
    decreases j,
{
    if j > 0 {
        lemma_add_counts_below(b, k, c, j - 1);
    }
}

/// Writes the largest index in `0..=len` that leaves every earlier value at
/// most `bound`, in a non-decreasing vector: the first index of a value above it.
fn partition_point_at_most(v: &Vec<u64>, bound: u64) -> (p: usize)
    requires
        forall|i: int, j: int| 0 <= i <= j < v.len() ==> v[i] <= v[j],
    ensures
        p <= v.len(),
        forall|i: int| 0 <= i < p ==> v[i] <= bound,
        forall|i: int| p <= i < v.len() ==> v[i] > bound,
{
    let mut lo: usize = 0;
    let mut hi: usize = v.len();
    while lo < hi
        invariant
            lo <= hi <= v.len(),
            forall|i: int, j: int| 0 <= i <= j < v.len() ==> v[i] <= v[j],
            forall|i: int| 0 <= i < lo ==> v[i] <= bound,
            forall|i: int| hi <= i < v.len() ==> v[i] > bound,
        decreases hi - lo,
    {
        let mid = lo + (hi - lo) / 2;
        if v[mid] <= bound {
            lo = mid + 1;
        } else {
            hi = mid;
        }
    }
    lo
}

/// In the running totals of a histogram, the first total above `r` stands at
/// the bucket that holds rank `r`.
proof fn lemma_partition_point_holds_rank(b: Seq<u64>, totals: Seq<u64>, r: int, p: int)
    requires
        totals.len() == b.len(),
        forall|j: int| 0 <= j < b.len() ==> totals[j] == count_below(b, j + 1),
        0 <= r < total(b),
        0 <= p <= b.len(),
        forall|i: int| 0 <= i < p ==> totals[i] <= r,
        forall|i: int| p <= i < b.len() ==> totals[i] > r,
    ensures
        holds_rank(b, r, p),
{
    if p == b.len() {
        assert(totals[p - 1] == total(b));
    }
    if p > 0 {
        assert(totals[p - 1] == count_below(b, p));
    }
    assert(totals[p] == count_below(b, p + 1));
}

impl Default for Histogram {
    fn default() -> (h: Histogram)
        ensures
            h@ == Seq::new(NUM_BUCKETS as nat, |i: int| 0u64),
    {
        let mut buckets: Vec<u64> = Vec::new();
        while buckets.len() < NUM_BUCKETS
            invariant
                buckets.len() <= NUM_BUCKETS,
                forall|i: int| 0 <= i < buckets.len() ==> buckets[i] == 0,
            decreases NUM_BUCKETS - buckets.len(),
        {
            buckets.push(0);
        }
        let h = Histogram { buckets };
        assert(h@ =~= Seq::new(NUM_BUCKETS as nat, |i: int| 0u64));
        h
    }
}

impl Histogram {
    /// The number of buckets: every histogram has all of them.
    pub fn num_buckets(&self) -> (n: usize)
        ensures
            n == NUM_BUCKETS,
            self@.len() == NUM_BUCKETS,
    {
        proof {
            use_type_invariant(self);
        }
        self.buckets.len()
    }

    /// Adds `count` samples to a bucket.
    pub fn add(&mut self, bucket: usize, count: u64)
        requires
            bucket < NUM_BUCKETS,
            old(self)@[bucket as int] + count <= u64::MAX,
        ensures
            final(self)@ == old(self)@.update(bucket as int, (old(self)@[bucket as int] + count) as u64),
            final(self)@.len() == NUM_BUCKETS,
        no_unwind
    {
        proof {
            use_type_invariant(&*self);
        }
        let v = self.buckets[bucket] + count;
        self.buckets[bucket] = v;
    }

    /// The latency summary of a histogram that holds at least one sample.
    pub fn summary(self) -> (s: Summary)
        requires
            total(self@) > 0,
            total(self@) * 99 <= u64::MAX,
        ensures
            s == summary_of(self@),
    {
        proof {
            use_type_invariant(&self);
        }
        let ghost b = self@;
        let mut buckets = self.buckets;
        let len = buckets.len();
        proof {
            lemma_count_below_monotone(b, 0, len as int);
        }

        // The first non-empty bucket.
        let mut first: usize = 0;
        while buckets[first] == 0
            invariant
                buckets@ == b,
                len == b.len() == NUM_BUCKETS,
                first < len,
                count_below(b, first as int) == 0,
                total(b) > 0,
            decreases len - first,
        {
            if first + 1 == len {
                assert(false);
            }
            first = first + 1;
        }
        assert(holds_rank(b, 0, first as int));

        // The last non-empty bucket.
        let mut last: usize = len - 1;
        assert(count_below(b, last as int + 1) == total(b));
        while buckets[last] == 0
            invariant
                buckets@ == b,
                len == b.len() == NUM_BUCKETS,
                last < len,
                count_below(b, last as int + 1) == total(b),
                total(b) > 0,
            decreases last,
        {
            if last == 0 {
                assert(count_below(b, 0) == 0);
                assert(count_below(b, 1) == b[0]);
                assert(false);
            }
            last = last - 1;
        }
        assert(holds_rank(b, total(b) - 1, last as int));

        // Running totals: bucket i becomes the number of samples up to i.
        let mut i: usize = 1;
        while i < len
            invariant
                len == b.len() == buckets.len() == NUM_BUCKETS,
                1 <= i <= len,
                total(b) <= u64::MAX,
                forall|j: int| 0 <= j < i ==> buckets[j] == count_below(b, j + 1),
                forall|j: int| i <= j < len ==> buckets[j] == b[j],
            decreases len - i,
        {
            proof {
                lemma_count_below_monotone(b, i as int + 1, len as int);
            }
            let v = buckets[i] + buckets[i - 1];
            buckets.set(i, v);
            i = i + 1;
        }
        let sum = buckets[len - 1];
        assert(sum == total(b));
        if sum == 0 {
            return Summary::default();
        }
        assert forall|x: int, y: int| 0 <= x <= y < buckets.len() implies buckets[x] <= buckets[y] by {
            lemma_count_below_monotone(b, x + 1, y + 1);
        }

        let v50 = sum / 2;
        let v90 = sum * 9 / 10;
        let v99 = sum * 99 / 100;
        let b50 = partition_point_at_most(&buckets, v50);
        let b90 = partition_point_at_most(&buckets, v90);
        let b99 = partition_point_at_most(&buckets, v99);
        assert(v50 < sum && v90 < sum && v99 < sum);
        proof {
            lemma_partition_point_holds_rank(b, buckets@, v50 as int, b50 as int);
            lemma_partition_point_holds_rank(b, buckets@, v90 as int, b90 as int);
            lemma_partition_point_holds_rank(b, buckets@, v99 as int, b99 as int);
        }
        proof {
            lemma_rank_bucket_is(b, 0, first as int);
            lemma_rank_bucket_is(b, total(b) - 1, last as int);
            lemma_rank_bucket_is(b, v50 as int, b50 as int);
            lemma_rank_bucket_is(b, v90 as int, b90 as int);
            lemma_rank_bucket_is(b, v99 as int, b99 as int);
        }

        Summary {
            min: bucket_to_value(first),
            p50: bucket_to_value(b50),
            p90: bucket_to_value(b90),
            p99: bucket_to_value(b99),
            max: bucket_to_value(last),
            samples: sum,
        }
    }
}

} // verus!
