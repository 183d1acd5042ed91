//! What a monitor records of a run: samples of CPU use, busy workers and
//! queue lengths, their totals, and their rendering as CSV lines.

use vstd::prelude::*;

verus! {

/// What a monitor sees at one tick: time since the start, CPU in use, busy
/// workers, and the lengths of both queues.
#[derive(Debug, Clone, Copy, PartialEq, Eq, Structural)]
pub struct MonitorSample {
    pub timestamp_ms: u128,
    pub cpu_usage: usize,
    pub active_workers: usize,
    pub io_queue_size: usize,
    pub cpu_queue_size: usize,
}

/// The sum of the CPU usage over the samples `s`.
pub open spec fn sum_cpu_usage(s: Seq<MonitorSample>) -> nat
    decreases s.len(),
{
    if s.len() == 0 {
        0
    } else {
        sum_cpu_usage(s.drop_last()) + s.last().cpu_usage as nat
    }
}

/// The sum of the busy-worker counts over the samples `s`.
pub open spec fn sum_active_workers(s: Seq<MonitorSample>) -> nat
    decreases s.len(),
{
    if s.len() == 0 {
        0
    } else {
        sum_active_workers(s.drop_last()) + s.last().active_workers as nat
    }
}

/// Totals split over concatenation: the totals of `a` followed by `b` are
/// those of `a` plus those of `b`; a single sample's totals are its own
/// readings.
pub proof fn lemma_totals_concat(a: Seq<MonitorSample>, b: Seq<MonitorSample>)
    ensures
        sum_cpu_usage(a + b) == sum_cpu_usage(a) + sum_cpu_usage(b),
        sum_active_workers(a + b) == sum_active_workers(a) + sum_active_workers(b),
        b.len() == 1 ==> sum_cpu_usage(b) == b[0].cpu_usage && sum_active_workers(b) == b[0].active_workers,
    decreases b.len(),
{
    if b.len() == 1 {
        assert(b.drop_last() =~= Seq::<MonitorSample>::empty());
    }
    if b.len() > 0 {
        lemma_totals_concat(a, b.drop_last());
        assert((a + b).drop_last() =~= a + b.drop_last());
    } else {
        assert(a + b =~= a);
    }
}

proof fn lemma_sums_bounded(s: Seq<MonitorSample>)
    ensures
        sum_cpu_usage(s) <= s.len() * usize::MAX,
        sum_active_workers(s) <= s.len() * usize::MAX,
    decreases s.len(),
{
    if s.len() > 0 {
        lemma_sums_bounded(s.drop_last());
        let n = s.len() as int;
        assert((n - 1) * usize::MAX + usize::MAX == n * usize::MAX) by (nonlinear_arith);
    }
}

/// The CPU usage and the busy-worker counts of all samples, each summed; the
/// averages of a run are these sums over the number of samples.
pub fn sample_totals(samples: &Vec<MonitorSample>) -> (totals: (u128, u128))
    ensures
        totals.0 == sum_cpu_usage(samples@),
        totals.1 == sum_active_workers(samples@),
{
    let mut cpu: u128 = 0;
    let mut workers: u128 = 0;
    let n = samples.len();
    let mut i: usize = 0;
    while i < n
        invariant
            n == samples@.len(),
            i <= n,
            cpu == sum_cpu_usage(samples@.take(i as int)),
            workers == sum_active_workers(samples@.take(i as int)),
        decreases n - i,
    {
        let s = samples[i];
        proof {
            let next = samples@.take(i + 1);
            assert(next.drop_last() =~= samples@.take(i as int));
            lemma_sums_bounded(next);
            let k = (i + 1) as int;
            assert(k * usize::MAX <= usize::MAX as int * usize::MAX) by (nonlinear_arith)
                requires
                    k <= usize::MAX,
            ;
            assert(usize::MAX as int * usize::MAX < u128::MAX) by (nonlinear_arith);
        }
        cpu = cpu + s.cpu_usage as u128;
        workers = workers + s.active_workers as u128;
        i = i + 1;
    }
    proof {
        assert(samples@.take(n as int) =~= samples@);
    }
    (cpu, workers)
}

/// The decimal digits of `n` as ASCII bytes, most significant first, with no
/// leading zeros ("0" for zero).
pub open spec fn decimal(n: nat) -> Seq<u8>
    decreases n,
{
    if n < 10 {
        seq![(48 + n) as u8]
    } else {
        decimal(n / 10).push((48 + n % 10) as u8)
    }
}

/// Appends the decimal digits of `n` to `out`.
pub fn push_decimal(out: &mut Vec<u8>, n: u128)
    ensures
        final(out)@ == old(out)@ + decimal(n as nat),
    decreases n,
{
    if n >= 10 {
        push_decimal(out, n / 10);
    }
    let digit: u8 = (n % 10) as u8;
    out.push(48 + digit);
    proof {
        if n >= 10 {
            assert(decimal(n as nat) == decimal((n / 10) as nat).push((48 + n % 10) as u8));
        }
    }
}

/// The number that a string of decimal digits stands for.
pub open spec fn digits_value(d: Seq<u8>) -> nat
    decreases d.len(),
{
    if d.len() == 0 {
        0
    } else {
        digits_value(d.drop_last()) * 10 + (d.last() - 48) as nat
    }
}

/// Whether `b` is an ASCII decimal digit.
pub open spec fn is_digit(b: u8) -> bool {
    48 <= b <= 57
}

/// The digits of `n` read back give `n`: they are all decimal digits, there
/// is at least one, and the first is 0 only for zero itself.
pub proof fn lemma_decimal_reads_back(n: nat)
    ensures
        digits_value(decimal(n)) == n,
        decimal(n).len() >= 1,
        forall|i: int| 0 <= i < decimal(n).len() ==> is_digit(#[trigger] decimal(n)[i]),
        decimal(n)[0] == 48 <==> n == 0,
    decreases n,
{
    if n >= 10 {
        lemma_decimal_reads_back(n / 10);
        let d = decimal(n);
        assert(d.drop_last() =~= decimal(n / 10));
        vstd::arithmetic::div_mod::lemma_fundamental_div_mod(n as int, 10);
        assert(n / 10 >= 1);
        assert(d.last() == (48 + n % 10) as u8);
        assert((d.last() - 48) as nat == n % 10);
        assert(digits_value(d) == digits_value(decimal(n / 10)) * 10 + n % 10);
        assert((n / 10) * 10 == 10 * (n / 10)) by (nonlinear_arith);
        assert forall|i: int| 0 <= i < d.len() implies is_digit(#[trigger] d[i]) by {
            if i < d.len() - 1 {
                assert(d[i] == decimal(n / 10)[i]);
            }
        }
    } else {
        assert(decimal(n).drop_last() =~= Seq::<u8>::empty());
        assert(digits_value(decimal(n)) == digits_value(Seq::<u8>::empty()) * 10 + n);
    }
}

/// Splits `line` at its commas into the fields between them (a line with
/// no comma is one field).
pub open spec fn split_commas(line: Seq<u8>) -> Seq<Seq<u8>>
    decreases line.len(),
{
    if line.len() == 0 {
        seq![Seq::<u8>::empty()]
    } else {
        let rest = split_commas(line.drop_first());
        if line[0] == 44 {
            seq![Seq::<u8>::empty()] + rest
        } else {
            rest.update(0, seq![line[0]] + rest[0])
        }
    }
}

proof fn lemma_split_commas_nonempty(line: Seq<u8>)
    ensures
        split_commas(line).len() >= 1,
    decreases line.len(),
{
    if line.len() > 0 {
        lemma_split_commas_nonempty(line.drop_first());
    }
}

/// A comma-free field followed by the rest of a line: the field joins the
/// first field of the rest.
proof fn lemma_split_field_prefix(a: Seq<u8>, t: Seq<u8>)
    requires
        forall|i: int| 0 <= i < a.len() ==> #[trigger] a[i] != 44,
    ensures
        split_commas(a + t) == split_commas(t).update(0, a + split_commas(t)[0]),
    decreases a.len(),
{
    lemma_split_commas_nonempty(t);
    if a.len() == 0 {
        assert(a + t =~= t);
        assert(a + split_commas(t)[0] =~= split_commas(t)[0]);
        assert(split_commas(t).update(0, split_commas(t)[0]) =~= split_commas(t));
    } else {
        let a2 = a.drop_first();
        lemma_split_field_prefix(a2, t);
        assert((a + t).drop_first() =~= a2 + t);
        assert((a + t)[0] == a[0]);
        assert(seq![a[0]] + (a2 + split_commas(t)[0]) =~= a + split_commas(t)[0]);
        assert(split_commas(t).update(0, a2 + split_commas(t)[0]).update(0, a + split_commas(t)[0])
            =~= split_commas(t).update(0, a + split_commas(t)[0]));
    }
}

/// A comma-free field, a comma, and the rest: the field stands first,
/// followed by the fields of the rest.
proof fn lemma_split_field_then_comma(a: Seq<u8>, t: Seq<u8>)
    requires
        forall|i: int| 0 <= i < a.len() ==> #[trigger] a[i] != 44,
    ensures
        split_commas(a + seq![44u8] + t) == seq![a] + split_commas(t),
{
    let c = seq![44u8] + t;
    assert(a + seq![44u8] + t =~= a + c);
    lemma_split_field_prefix(a, c);
    assert(c.drop_first() =~= t);
    assert(c[0] == 44);
    assert(split_commas(c) == seq![Seq::<u8>::empty()] + split_commas(t));
    assert(a + split_commas(c)[0] =~= a);
    assert(split_commas(c).update(0, a) =~= seq![a] + split_commas(t));
}

proof fn lemma_decimal_has_no_comma(n: nat)
    ensures
        forall|i: int| 0 <= i < decimal(n).len() ==> #[trigger] decimal(n)[i] != 44,
{
    lemma_decimal_reads_back(n);
    assert forall|i: int| 0 <= i < decimal(n).len() implies #[trigger] decimal(n)[i] != 44 by {
        assert(is_digit(decimal(n)[i]));
    }
}

/// A CSV line reads back as the sample it came from: it ends in a newline,
/// and before it the fields between commas are, in order, the timestamp,
/// the CPU usage, the busy workers, the IO queue length and the CPU queue
/// length, each in decimal digits.
pub proof fn lemma_csv_line_reads_back(s: MonitorSample)
    ensures
        ({
            let line = csv_line_of(s);
            let fields = split_commas(line.drop_last());
            &&& line.last() == 10
            &&& fields.len() == 5
            &&& digits_value(fields[0]) == s.timestamp_ms
            &&& digits_value(fields[1]) == s.cpu_usage
            &&& digits_value(fields[2]) == s.active_workers
            &&& digits_value(fields[3]) == s.io_queue_size
            &&& digits_value(fields[4]) == s.cpu_queue_size
            &&& forall|k: int, i: int| 0 <= k < 5 && 0 <= i < fields[k].len() ==> is_digit(#[trigger] fields[k][i])
        }),
{
    let d0 = decimal(s.timestamp_ms as nat);
    let d1 = decimal(s.cpu_usage as nat);
    let d2 = decimal(s.active_workers as nat);
    let d3 = decimal(s.io_queue_size as nat);
    let d4 = decimal(s.cpu_queue_size as nat);
    lemma_decimal_reads_back(s.timestamp_ms as nat);
    lemma_decimal_reads_back(s.cpu_usage as nat);
    lemma_decimal_reads_back(s.active_workers as nat);
    lemma_decimal_reads_back(s.io_queue_size as nat);
    lemma_decimal_reads_back(s.cpu_queue_size as nat);
    lemma_decimal_has_no_comma(s.timestamp_ms as nat);
    lemma_decimal_has_no_comma(s.cpu_usage as nat);
    lemma_decimal_has_no_comma(s.active_workers as nat);
    lemma_decimal_has_no_comma(s.io_queue_size as nat);
    lemma_decimal_has_no_comma(s.cpu_queue_size as nat);
    let comma = seq![44u8];
    let line = csv_line_of(s);
    let body = d0 + comma + d1 + comma + d2 + comma + d3 + comma + d4;
    assert(line =~= body + seq![10u8]);
    assert(line.drop_last() =~= body);
    let t3 = d4;
    let t2 = d3 + comma + t3;
    let t1 = d2 + comma + t2;
    let t0 = d1 + comma + t1;
    assert(body =~= d0 + comma + t0);
    // the last field: no comma, so it is the only field
    lemma_split_field_prefix(d4, Seq::<u8>::empty());
    assert(d4 + Seq::<u8>::empty() =~= d4);
    assert(split_commas(Seq::<u8>::empty()) == seq![Seq::<u8>::empty()]);
    assert(split_commas(d4) =~= seq![d4]);
    lemma_split_field_then_comma(d3, t3);
    lemma_split_field_then_comma(d2, t2);
    lemma_split_field_then_comma(d1, t1);
    lemma_split_field_then_comma(d0, t0);
    let fields = split_commas(body);
    assert(fields =~= seq![d0, d1, d2, d3, d4]);
}

/// A sample as one CSV line: its five fields in decimal, in the order
/// timestamp, CPU usage, busy workers, IO queue length, CPU queue length,
/// separated by commas and ended by a newline.
pub open spec fn csv_line_of(s: MonitorSample) -> Seq<u8> {
    decimal(s.timestamp_ms as nat) + seq![44u8] + decimal(s.cpu_usage as nat) + seq![44u8]
        + decimal(s.active_workers as nat) + seq![44u8] + decimal(s.io_queue_size as nat)
        + seq![44u8] + decimal(s.cpu_queue_size as nat) + seq![10u8]
}

impl MonitorSample {
    /// The sample as a line of the monitor's CSV log.
    pub fn csv_line(&self) -> (line: Vec<u8>)
        ensures
            line@ == csv_line_of(*self),
    {
        let mut line: Vec<u8> = Vec::new();
        push_decimal(&mut line, self.timestamp_ms);
        line.push(44);
        push_decimal(&mut line, self.cpu_usage as u128);
        line.push(44);
        push_decimal(&mut line, self.active_workers as u128);
        line.push(44);
        push_decimal(&mut line, self.io_queue_size as u128);
        line.push(44);
        push_decimal(&mut line, self.cpu_queue_size as u128);
        line.push(10);
        proof {
            assert(line@ =~= csv_line_of(*self));
        }
        line
    }
}

} // verus!
