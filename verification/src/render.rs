//! The text forms of a histogram, assembled from labels and counts.

use vstd::prelude::*;

verus! {

/// The character of a decimal digit.
pub open spec fn digit_char(d: nat) -> char {
    if d == 0 {
        '0'
    } else if d == 1 {
        '1'
    } else if d == 2 {
        '2'
    } else if d == 3 {
        '3'
    } else if d == 4 {
        '4'
    } else if d == 5 {
        '5'
    } else if d == 6 {
        '6'
    } else if d == 7 {
        '7'
    } else if d == 8 {
        '8'
    } else {
        '9'
    }
}

/// A natural number in decimal, without leading zeros.
pub open spec fn decimal(n: nat) -> Seq<char>
    decreases n,
{
    if n < 10 {
        seq![digit_char(n)]
    } else {
        decimal(n / 10).push(digit_char(n % 10))
    }
}

/// A bucket as it is rendered: the text of its bound, and its cumulative count.
pub type Labelled = (Seq<char>, nat);

/// The rendered form of each pair of a label and a count.
pub open spec fn labelled(buckets: Seq<(String, u64)>) -> Seq<Labelled> {
    Seq::new(buckets.len(), |i: int| (buckets[i].0@, buckets[i].1 as nat))
}

/// One bucket in compact form: the label, a colon and the count.
pub open spec fn pair_text(bucket: Labelled) -> Seq<char> {
    bucket.0 + ":"@ + decimal(bucket.1)
}

/// The first `n` buckets in compact form, separated by commas.
pub open spec fn compact_prefix(buckets: Seq<Labelled>, n: nat) -> Seq<char>
    decreases n,
{
    if n == 0 {
        Seq::empty()
    } else if n == 1 {
        pair_text(buckets[0])
    } else {
        compact_prefix(buckets, (n - 1) as nat) + ","@ + pair_text(buckets[n - 1])
    }
}

/// All buckets in compact form, separated by commas.
pub open spec fn compact_text(buckets: Seq<Labelled>) -> Seq<char> {
    compact_prefix(buckets, buckets.len())
}

/// The log line of a metric: a tag, the metric's name and its buckets in
/// compact form.
pub open spec fn log_line_text(name: Seq<char>, buckets: Seq<Labelled>) -> Seq<char> {
    "[metrics_histogram]|"@ + name + ":"@ + compact_text(buckets) + "|"@
}

/// One bucket in exposition form: a line that gives the cumulative count of
/// the samples at or below a bound.
pub open spec fn bucket_line(name: Seq<char>, label: Seq<char>, count: nat) -> Seq<char> {
    name + "_bucket{le=\""@ + label + "\"} "@ + decimal(count) + "\n"@
}

/// The exposition lines of the first `n` buckets.
pub open spec fn bucket_lines(name: Seq<char>, buckets: Seq<Labelled>, n: nat) -> Seq<char>
    decreases n,
{
    if n == 0 {
        Seq::empty()
    } else {
        bucket_lines(name, buckets, (n - 1) as nat) + bucket_line(
            name,
            buckets[n - 1].0,
            buckets[n - 1].1,
        )
    }
}

/// The exposition block of a metric: a line for each bucket, a line for the
/// overflow bucket, which holds every sample, then the sum and the count.
pub open spec fn export_block_text(
    name: Seq<char>,
    buckets: Seq<Labelled>,
    sum: Seq<char>,
    count: nat,
) -> Seq<char> {
    bucket_lines(name, buckets, buckets.len()) + bucket_line(name, "+Inf"@, count) + name
        + "_sum "@ + sum + "\n"@ + name + "_count "@ + decimal(count) + "\n"@
}

fn digit_text(d: u64) -> (r: &'static str)
    requires
        d < 10,
    ensures
        r@ == seq![digit_char(d as nat)],
{
    proof {
        reveal_strlit("0");
        reveal_strlit("1");
        reveal_strlit("2");
        reveal_strlit("3");
        reveal_strlit("4");
        reveal_strlit("5");
        reveal_strlit("6");
        reveal_strlit("7");
        reveal_strlit("8");
        reveal_strlit("9");
    }
    let r = if d == 0 {
        "0"
    } else if d == 1 {
        "1"
    } else if d == 2 {
        "2"
    } else if d == 3 {
        "3"
    } else if d == 4 {
        "4"
    } else if d == 5 {
        "5"
    } else if d == 6 {
        "6"
    } else if d == 7 {
        "7"
    } else if d == 8 {
        "8"
    } else {
        "9"
    };
    assert(r@ =~= seq![digit_char(d as nat)]);
    r
}

/// Appends `n` in decimal to `out`.
pub fn append_decimal(out: &mut String, n: u64)
    ensures
        final(out)@ == old(out)@ + decimal(n as nat),
    decreases n,
{
    if n >= 10 {
        append_decimal(out, n / 10);
    }
    out.append(digit_text(n % 10));
    assert(out@ =~= old(out)@ + decimal(n as nat));
}

/// Writes `n` in decimal.
pub fn decimal_text(n: u64) -> (r: String)
    ensures
        r@ == decimal(n as nat),
{
    let mut r = String::new();
    append_decimal(&mut r, n);
    assert(r@ =~= decimal(n as nat));
    r
}

/// Writes the buckets in compact form: each as its label, a colon and its
/// count, separated by commas.
pub fn format_compact(buckets: &Vec<(String, u64)>) -> (r: String)
    ensures
        r@ == compact_text(labelled(buckets@)),
{
    let mut r = String::new();
    let mut i: usize = 0;
    while i < buckets.len()
        invariant
            i <= buckets.len(),
            r@ == compact_prefix(labelled(buckets@), i as nat),
        decreases buckets.len() - i,
    {
        if i > 0 {
            r.append(",");
        }
        r.append(buckets[i].0.as_str());
        r.append(":");
        append_decimal(&mut r, buckets[i].1);
        assert(r@ =~= compact_prefix(labelled(buckets@), (i + 1) as nat));
        i += 1;
    }
    r
}

/// Writes the log line of the metric `name` with the given buckets.
pub fn format_log_line(name: &str, buckets: &Vec<(String, u64)>) -> (r: String)
    ensures
        r@ == log_line_text(name@, labelled(buckets@)),
{
    let mut r = String::from_str("[metrics_histogram]|");
    r.append(name);
    r.append(":");
    let compact = format_compact(buckets);
    r.append(compact.as_str());
    r.append("|");
    r
}

fn append_bucket_line(out: &mut String, name: &str, label: &str, count: u64)
    ensures
        final(out)@ == old(out)@ + bucket_line(name@, label@, count as nat),
{
    out.append(name);
    out.append("_bucket{le=\"");
    out.append(label);
    out.append("\"} ");
    append_decimal(out, count);
    out.append("\n");
    assert(out@ =~= old(out)@ + bucket_line(name@, label@, count as nat));
}

/// Writes the exposition block of the metric `name`: a line for each bucket,
/// a line for the overflow bucket, then the sum and the count.
pub fn format_export_block(
    name: &str,
    buckets: &Vec<(String, u64)>,
    sum: &str,
    count: u64,
) -> (r: String)
    ensures
        r@ == export_block_text(name@, labelled(buckets@), sum@, count as nat),
{
    let mut r = String::new();
    let mut i: usize = 0;
    while i < buckets.len()
        invariant
            i <= buckets.len(),
            r@ == bucket_lines(name@, labelled(buckets@), i as nat),
        decreases buckets.len() - i,
    {
        append_bucket_line(&mut r, name, buckets[i].0.as_str(), buckets[i].1);
        i += 1;
    }
    append_bucket_line(&mut r, name, "+Inf", count);
    r.append(name);
    r.append("_sum ");
    r.append(sum);
    r.append("\n");
    r.append(name);
    r.append("_count ");
    append_decimal(&mut r, count);
    r.append("\n");
    assert(r@ =~= export_block_text(name@, labelled(buckets@), sum@, count as nat));
    r
}

} // verus!
