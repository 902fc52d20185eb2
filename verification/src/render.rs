//! The scrape serializer: renders the metric registry to the line-based
//! text exposition format, `# HELP` / `# TYPE` comments followed by
//! `name{label="value",...} value` lines, histograms expanded into
//! cumulative `_bucket` lines plus `_sum` and `_count`.
//!
//! Rendering is a pure function of the registry state: rendering twice
//! with no intervening requests yields identical output.  Label values are
//! emitted verbatim.  Durations and boundaries, held in nanoseconds, are
//! printed as decimal fractions (seconds or milliseconds) with trailing
//! zeros trimmed.

use vstd::prelude::*;
use crate::context::pairs_view;
use crate::hex::{hex_digit, hex_digit_str};

verus! {

/// Ten raised to the given power.
pub open spec fn pow10(w: nat) -> nat
    decreases w,
{
    if w == 0 {
        1
    } else {
        10 * pow10((w - 1) as nat)
    }
}

/// The powers of ten the duration scales rest on.
pub proof fn lemma_pow10_values()
    ensures
        pow10(6) == 1000000,
        pow10(9) == 1000000000,
{
    reveal_with_fuel(pow10, 10);
}

/// The decimal digits of a number, most significant first.
pub open spec fn dec_rep(n: nat) -> Seq<char>
    decreases n,
{
    if n < 10 {
        seq![hex_digit(n)]
    } else {
        dec_rep(n / 10).push(hex_digit(n % 10))
    }
}

/// Exactly `w` decimal digits, zero-padded on the left.
pub open spec fn pad_rep(f: nat, w: nat) -> Seq<char>
    decreases w,
{
    if w == 0 {
        Seq::empty()
    } else {
        pad_rep(f / 10, (w - 1) as nat).push(hex_digit(f % 10))
    }
}

/// The fractional digits of `f` out of `pow10(w)`, trailing zeros
/// trimmed.
pub open spec fn frac_rep(f: nat, w: nat) -> Seq<char>
    decreases w,
{
    if w == 0 {
        Seq::empty()
    } else if f % 10 == 0 {
        frac_rep(f / 10, (w - 1) as nat)
    } else {
        pad_rep(f, w)
    }
}

/// The decimal rendering of `n / pow10(scale)`: the integer part, then,
/// when the remainder is not zero, a point and the trimmed fraction.
pub open spec fn scaled_rep(n: nat, scale: nat) -> Seq<char> {
    let ip = n / pow10(scale);
    let f = n % pow10(scale);
    if f == 0 {
        dec_rep(ip)
    } else {
        dec_rep(ip) + "."@ + frac_rep(f, scale)
    }
}

/// Writes the decimal digits of a number.
pub fn fmt_u128(n: u128) -> (r: String)
    ensures
        r@ == dec_rep(n as nat),
    decreases n,
{
    if n < 10 {
        let r = String::from_str(hex_digit_str(n as u8));
        proof {
            assert(r@ =~= dec_rep(n as nat));
        }
        r
    } else {
        let mut r = fmt_u128(n / 10);
        r.append(hex_digit_str((n % 10) as u8));
        proof {
            assert((n % 10) as u8 as nat == (n as nat) % 10);
            assert((n / 10) as nat == (n as nat) / 10);
            assert(r@ =~= dec_rep(n as nat));
        }
        r
    }
}

/// Writes exactly `w` decimal digits, zero-padded.
fn fmt_pad(f: u64, w: u32) -> (r: String)
    ensures
        r@ == pad_rep(f as nat, w as nat),
    decreases w,
{
    if w == 0 {
        let r = String::new();
        proof {
            assert(r@ =~= pad_rep(f as nat, 0));
        }
        r
    } else {
        let mut r = fmt_pad(f / 10, w - 1);
        r.append(hex_digit_str((f % 10) as u8));
        proof {
            assert((f % 10) as u8 as nat == (f as nat) % 10);
            assert((f / 10) as nat == (f as nat) / 10);
            assert(r@ =~= pad_rep(f as nat, w as nat));
        }
        r
    }
}

/// Writes the trimmed fractional digits.
fn fmt_frac(f: u64, w: u32) -> (r: String)
    ensures
        r@ == frac_rep(f as nat, w as nat),
    decreases w,
{
    if w == 0 {
        let r = String::new();
        proof {
            assert(r@ =~= frac_rep(f as nat, 0));
        }
        r
    } else if f % 10 == 0 {
        let r = fmt_frac(f / 10, w - 1);
        proof {
            assert((f / 10) as nat == (f as nat) / 10);
        }
        r
    } else {
        fmt_pad(f, w)
    }
}

/// Writes `n / pow10(scale)` as a decimal fraction.
pub fn fmt_scaled(n: u64, scale: u32) -> (r: String)
    requires
        scale == 6 || scale == 9,
    ensures
        r@ == scaled_rep(n as nat, scale as nat),
{
    proof {
        lemma_pow10_values();
    }
    let p: u64 = if scale == 9 {
        1000000000
    } else {
        1000000
    };
    let ip = n / p;
    let f = n % p;
    if f == 0 {
        let r = fmt_u128(ip as u128);
        proof {
            assert((ip as u128) as nat == (n as nat) / pow10(scale as nat));
        }
        r
    } else {
        let mut r = fmt_u128(ip as u128);
        r.append(".");
        let frac = fmt_frac(f, scale);
        r.append(frac.as_str());
        proof {
            assert((ip as u128) as nat == (n as nat) / pow10(scale as nat));
            assert(f as nat == (n as nat) % pow10(scale as nat));
            assert(r@ =~= scaled_rep(n as nat, scale as nat));
        }
        r
    }
}

// ------------------------------------------------------------------
// Lines and blocks.
// ------------------------------------------------------------------

/// The global labels of a configuration, empty when none were set.
pub open spec fn gl_spec(g: Option<Seq<(Seq<char>, Seq<char>)>>) -> Seq<(Seq<char>, Seq<char>)> {
    match g {
        Some(s) => s,
        None => Seq::empty(),
    }
}

/// The global label pairs, each rendered `key="value",`.
pub open spec fn global_pairs_rep(gl: Seq<(Seq<char>, Seq<char>)>) -> Seq<char>
    decreases gl.len(),
{
    if gl.len() == 0 {
        Seq::empty()
    } else {
        global_pairs_rep(gl.drop_last()) + gl.last().0 + "=\""@ + gl.last().1 + "\","@
    }
}

/// A label block: the global labels, then route, method and status, then
/// an optional `le` bound.
pub open spec fn label_rep(
    gl: Seq<(Seq<char>, Seq<char>)>,
    l: crate::metrics::LabelSetV,
    le: Option<Seq<char>>,
) -> Seq<char> {
    "{"@ + global_pairs_rep(gl) + "route=\""@ + l.route + "\",method=\""@ + l.method
        + "\",status=\""@ + dec_rep(l.status as nat) + "\""@ + (match le {
        Some(v) => ",le=\""@ + v + "\""@,
        None => Seq::empty(),
    }) + "}"@
}

/// One counter sample line.
pub open spec fn counter_line_rep(
    name: Seq<char>,
    c: crate::metrics::CounterSeriesV,
    gl: Seq<(Seq<char>, Seq<char>)>,
) -> Seq<char> {
    name + label_rep(gl, c.labels, None) + " "@ + dec_rep(c.value as nat) + "\n"@
}

/// The sample lines of a counter's series, in series order.
pub open spec fn counter_lines_rep(
    name: Seq<char>,
    s: Seq<crate::metrics::CounterSeriesV>,
    gl: Seq<(Seq<char>, Seq<char>)>,
) -> Seq<char>
    decreases s.len(),
{
    if s.len() == 0 {
        Seq::empty()
    } else {
        counter_lines_rep(name, s.drop_last(), gl) + counter_line_rep(name, s.last(), gl)
    }
}

/// A whole counter: its help and type comments, then its sample lines.
pub open spec fn counter_block_rep(
    name: Seq<char>,
    help: Seq<char>,
    s: Seq<crate::metrics::CounterSeriesV>,
    gl: Seq<(Seq<char>, Seq<char>)>,
) -> Seq<char> {
    "# HELP "@ + name + " "@ + help + "\n"@ + "# TYPE "@ + name + " counter\n"@
        + counter_lines_rep(name, s, gl)
}

/// One cumulative bucket line, for the boundary at `i`; the `le` value is
/// the boundary in seconds.
pub open spec fn bucket_line_rep(
    name: Seq<char>,
    h: crate::metrics::HistogramSeriesV,
    bounds: Seq<u64>,
    gl: Seq<(Seq<char>, Seq<char>)>,
    i: int,
) -> Seq<char> {
    name + "_bucket"@ + label_rep(gl, h.labels, Some(scaled_rep(bounds[i] as nat, 9))) + " "@
        + dec_rep(crate::metrics::cumulative_count(h.buckets, i)) + "\n"@
}

/// The cumulative bucket lines for the first `upto` boundaries.
pub open spec fn bucket_lines_rep(
    name: Seq<char>,
    h: crate::metrics::HistogramSeriesV,
    bounds: Seq<u64>,
    gl: Seq<(Seq<char>, Seq<char>)>,
    upto: int,
) -> Seq<char>
    decreases upto,
{
    if upto <= 0 {
        Seq::empty()
    } else {
        bucket_lines_rep(name, h, bounds, gl, upto - 1) + bucket_line_rep(name, h, bounds, gl, upto - 1)
    }
}

/// One histogram series: every boundary's bucket line, the catch-all
/// bucket, the sum (scaled to the block's unit) and the count.
pub open spec fn hist_series_rep(
    name: Seq<char>,
    h: crate::metrics::HistogramSeriesV,
    bounds: Seq<u64>,
    gl: Seq<(Seq<char>, Seq<char>)>,
    sum_scale: nat,
) -> Seq<char> {
    bucket_lines_rep(name, h, bounds, gl, bounds.len() as int) + name + "_bucket"@ + label_rep(
        gl,
        h.labels,
        Some("+Inf"@),
    ) + " "@ + dec_rep(crate::metrics::cumulative_count(h.buckets, h.buckets.len() - 1)) + "\n"@
        + name + "_sum"@ + label_rep(gl, h.labels, None) + " "@ + scaled_rep(
        h.sum_ns as nat,
        sum_scale,
    ) + "\n"@ + name + "_count"@ + label_rep(gl, h.labels, None) + " "@ + dec_rep(h.count as nat)
        + "\n"@
}

/// The lines of a histogram's series, in series order.
pub open spec fn hist_lines_rep(
    name: Seq<char>,
    s: Seq<crate::metrics::HistogramSeriesV>,
    bounds: Seq<u64>,
    gl: Seq<(Seq<char>, Seq<char>)>,
    sum_scale: nat,
) -> Seq<char>
    decreases s.len(),
{
    if s.len() == 0 {
        Seq::empty()
    } else {
        hist_lines_rep(name, s.drop_last(), bounds, gl, sum_scale) + hist_series_rep(
            name,
            s.last(),
            bounds,
            gl,
            sum_scale,
        )
    }
}

/// A whole histogram: its help and type comments, then its lines.
pub open spec fn hist_block_rep(
    name: Seq<char>,
    help: Seq<char>,
    s: Seq<crate::metrics::HistogramSeriesV>,
    bounds: Seq<u64>,
    gl: Seq<(Seq<char>, Seq<char>)>,
    sum_scale: nat,
) -> Seq<char> {
    "# HELP "@ + name + " "@ + help + "\n"@ + "# TYPE "@ + name + " histogram\n"@
        + hist_lines_rep(name, s, bounds, gl, sum_scale)
}

/// The full exposition text of a registry: both counters, then the two
/// duration histograms over the configured boundaries.
pub open spec fn render_spec(r: crate::metrics::MetricRegistryV) -> Seq<char> {
    let gl = gl_spec(r.config.global_labels);
    counter_block_rep(
        "request_count"@,
        "total request count (since start of service)"@,
        r.request_count,
        gl,
    ) + counter_block_rep(
        "error_count"@,
        "failed request count (since start of service)"@,
        r.error_count,
        gl,
    ) + hist_block_rep(
        "request_duration_seconds"@,
        "request duration histogram (in seconds, since start of service)"@,
        r.duration_s,
        r.config.boundaries,
        gl,
        9,
    ) + hist_block_rep(
        "request_duration_ms"@,
        "request duration histogram (in milliseconds, since start of service)"@,
        r.duration_ms,
        r.config.boundaries,
        gl,
        6,
    )
}

/// The global labels of a configuration value, empty when none were set.
pub open spec fn opt_pairs_view(g: Option<Vec<(String, String)>>) -> Seq<(Seq<char>, Seq<char>)> {
    match g {
        Some(v) => pairs_view(v@),
        None => Seq::empty(),
    }
}

/// Appends the global label pairs.
fn append_global_pairs(out: &mut String, gl: &Vec<(String, String)>)
    ensures
        final(out)@ == old(out)@ + global_pairs_rep(pairs_view(gl@)),
{
    let n = gl.len();
    let mut i: usize = 0;
    proof {
        assert(pairs_view(gl@).subrange(0, 0) =~= Seq::<(Seq<char>, Seq<char>)>::empty());
        assert(out@ =~= old(out)@ + global_pairs_rep(pairs_view(gl@).subrange(0, 0)));
    }
    while i < n
        invariant
            0 <= i <= n,
            n == gl@.len(),
            out@ == old(out)@ + global_pairs_rep(pairs_view(gl@).subrange(0, i as int)),
        decreases n - i,
    {
        out.append(gl[i].0.as_str());
        out.append("=\"");
        out.append(gl[i].1.as_str());
        out.append("\",");
        proof {
            let pv = pairs_view(gl@);
            let cur = pv.subrange(0, i + 1);
            assert(cur.drop_last() =~= pv.subrange(0, i as int));
            assert(cur.last() == pv[i as int]);
            assert(out@ =~= old(out)@ + global_pairs_rep(cur));
        }
        i = i + 1;
    }
    proof {
        assert(pairs_view(gl@).subrange(0, n as int) =~= pairs_view(gl@));
    }
}

/// Appends the global label pairs, when any were configured.
fn append_gl_opt(out: &mut String, gl: &Option<Vec<(String, String)>>)
    ensures
        final(out)@ == old(out)@ + global_pairs_rep(opt_pairs_view(*gl)),
{
    match gl {
        Some(v) => {
            append_global_pairs(out, v);
        },
        None => {
            proof {
                assert(out@ =~= old(out)@ + global_pairs_rep(opt_pairs_view(*gl)));
            }
        },
    }
}

/// Appends one label block.
fn append_labels(
    out: &mut String,
    gl: &Option<Vec<(String, String)>>,
    labels: &crate::metrics::LabelSet,
    le: Option<&String>,
)
    ensures
        final(out)@ == old(out)@ + label_rep(
            opt_pairs_view(*gl),
            labels@,
            match le {
                Some(s) => Some(s@),
                None => None,
            },
        ),
{
    out.append("{");
    append_gl_opt(out, gl);
    out.append("route=\"");
    out.append(labels.route.as_str());
    out.append("\",method=\"");
    out.append(labels.method.as_str());
    out.append("\",status=\"");
    let st = fmt_u128(labels.status as u128);
    out.append(st.as_str());
    out.append("\"");
    match le {
        Some(v) => {
            out.append(",le=\"");
            out.append(v.as_str());
            out.append("\"");
        },
        None => {},
    }
    out.append("}");
    proof {
        assert(out@ =~= old(out)@ + label_rep(
            opt_pairs_view(*gl),
            labels@,
            match le {
                Some(s) => Some(s@),
                None => None,
            },
        ));
    }
}

/// Appends one counter sample line.
fn append_counter_line(
    out: &mut String,
    name: &str,
    c: &crate::metrics::CounterSeries,
    gl: &Option<Vec<(String, String)>>,
)
    ensures
        final(out)@ == old(out)@ + counter_line_rep(name@, c@, opt_pairs_view(*gl)),
{
    out.append(name);
    append_labels(out, gl, &c.labels, None);
    out.append(" ");
    let v = fmt_u128(c.value as u128);
    out.append(v.as_str());
    out.append("\n");
    proof {
        assert(out@ =~= old(out)@ + counter_line_rep(name@, c@, opt_pairs_view(*gl)));
    }
}

/// Appends a whole counter block.
fn append_counter_block(
    out: &mut String,
    name: &str,
    help: &str,
    series: &Vec<crate::metrics::CounterSeries>,
    gl: &Option<Vec<(String, String)>>,
)
    ensures
        final(out)@ == old(out)@ + counter_block_rep(
            name@,
            help@,
            crate::metrics::counters_view(series@),
            opt_pairs_view(*gl),
        ),
{
    out.append("# HELP ");
    out.append(name);
    out.append(" ");
    out.append(help);
    out.append("\n");
    out.append("# TYPE ");
    out.append(name);
    out.append(" counter\n");
    let ghost base = out@;
    let ghost sv = crate::metrics::counters_view(series@);
    let n = series.len();
    let mut i: usize = 0;
    proof {
        assert(sv.subrange(0, 0) =~= Seq::<crate::metrics::CounterSeriesV>::empty());
        assert(out@ =~= base + counter_lines_rep(name@, sv.subrange(0, 0), opt_pairs_view(*gl)));
    }
    while i < n
        invariant
            0 <= i <= n,
            n == series@.len(),
            sv == crate::metrics::counters_view(series@),
            out@ == base + counter_lines_rep(name@, sv.subrange(0, i as int), opt_pairs_view(*gl)),
        decreases n - i,
    {
        append_counter_line(out, name, &series[i], gl);
        proof {
            let cur = sv.subrange(0, i + 1);
            assert(cur.drop_last() =~= sv.subrange(0, i as int));
            assert(cur.last() == sv[i as int]);
            assert(out@ =~= base + counter_lines_rep(name@, cur, opt_pairs_view(*gl)));
        }
        i = i + 1;
    }
    proof {
        assert(sv.subrange(0, n as int) =~= sv);
        assert(out@ =~= old(out)@ + counter_block_rep(name@, help@, sv, opt_pairs_view(*gl)));
    }
}

/// Appends all lines of one histogram series.
#[verifier::rlimit(100)]
fn append_hist_series(
    out: &mut String,
    name: &str,
    h: &crate::metrics::HistogramSeries,
    bounds: &Vec<u64>,
    gl: &Option<Vec<(String, String)>>,
    sum_scale: u32,
)
    requires
        sum_scale == 6 || sum_scale == 9,
        h@.buckets.len() == bounds@.len() + 1,
    ensures
        final(out)@ == old(out)@ + hist_series_rep(
            name@,
            h@,
            bounds@,
            opt_pairs_view(*gl),
            sum_scale as nat,
        ),
{
    let nb = bounds.len();
    let mut cum: u128 = 0;
    let mut i: usize = 0;
    proof {
        assert(out@ =~= old(out)@ + bucket_lines_rep(name@, h@, bounds@, opt_pairs_view(*gl), 0));
    }
    while i < nb
        invariant
            0 <= i <= nb,
            nb == bounds@.len(),
            h@.buckets.len() == nb + 1,
            cum == crate::metrics::cumulative_count(h@.buckets, i as int - 1),
            cum <= (i as int) * (u64::MAX as int),
            out@ == old(out)@ + bucket_lines_rep(
                name@,
                h@,
                bounds@,
                opt_pairs_view(*gl),
                i as int,
            ),
        decreases nb - i,
    {
        let b = h.buckets[i];
        proof {
            assert(cum + b <= ((i as int) + 1) * (u64::MAX as int)
                < 0x100000000000000000000000000000000) by (nonlinear_arith)
                requires
                    cum <= (i as int) * (u64::MAX as int),
                    b <= u64::MAX,
                    (i as int) + 1 <= 0xffffffffffffffff,
            ;
        }
        cum = cum + (b as u128);
        out.append(name);
        out.append("_bucket");
        let le = fmt_scaled(bounds[i], 9);
        append_labels(out, gl, &h.labels, Some(&le));
        out.append(" ");
        let cv = fmt_u128(cum);
        out.append(cv.as_str());
        out.append("\n");
        proof {
            assert(cum == crate::metrics::cumulative_count(h@.buckets, i as int));
            assert(out@ =~= old(out)@ + bucket_lines_rep(
                name@,
                h@,
                bounds@,
                opt_pairs_view(*gl),
                i as int + 1,
            ));
        }
        i = i + 1;
    }
    let b = h.buckets[nb];
    proof {
        assert(cum + b <= ((nb as int) + 1) * (u64::MAX as int)
            < 0x100000000000000000000000000000000) by (nonlinear_arith)
            requires
                cum <= (nb as int) * (u64::MAX as int),
                b <= u64::MAX,
                (nb as int) + 1 <= 0x10000000000000000,
        ;
    }
    cum = cum + (b as u128);
    proof {
        assert(cum == crate::metrics::cumulative_count(h@.buckets, nb as int));
        assert(nb as int == h@.buckets.len() - 1);
    }
    out.append(name);
    out.append("_bucket");
    let inf = String::from_str("+Inf");
    append_labels(out, gl, &h.labels, Some(&inf));
    out.append(" ");
    let cv = fmt_u128(cum);
    out.append(cv.as_str());
    out.append("\n");
    out.append(name);
    out.append("_sum");
    append_labels(out, gl, &h.labels, None);
    out.append(" ");
    let sum = fmt_scaled(h.sum_ns, sum_scale);
    out.append(sum.as_str());
    out.append("\n");
    out.append(name);
    out.append("_count");
    append_labels(out, gl, &h.labels, None);
    out.append(" ");
    let cnt = fmt_u128(h.count as u128);
    out.append(cnt.as_str());
    out.append("\n");
    proof {
        assert(out@ =~= old(out)@ + hist_series_rep(
            name@,
            h@,
            bounds@,
            opt_pairs_view(*gl),
            sum_scale as nat,
        ));
    }
}

/// Appends a whole histogram block.
fn append_hist_block(
    out: &mut String,
    name: &str,
    help: &str,
    series: &Vec<crate::metrics::HistogramSeries>,
    bounds: &Vec<u64>,
    gl: &Option<Vec<(String, String)>>,
    sum_scale: u32,
)
    requires
        sum_scale == 6 || sum_scale == 9,
        crate::metrics::series_wf(crate::metrics::hists_view(series@), bounds@.len() as int),
    ensures
        final(out)@ == old(out)@ + hist_block_rep(
            name@,
            help@,
            crate::metrics::hists_view(series@),
            bounds@,
            opt_pairs_view(*gl),
            sum_scale as nat,
        ),
{
    out.append("# HELP ");
    out.append(name);
    out.append(" ");
    out.append(help);
    out.append("\n");
    out.append("# TYPE ");
    out.append(name);
    out.append(" histogram\n");
    let ghost base = out@;
    let ghost sv = crate::metrics::hists_view(series@);
    let n = series.len();
    let mut i: usize = 0;
    proof {
        assert(sv.subrange(0, 0) =~= Seq::<crate::metrics::HistogramSeriesV>::empty());
        assert(out@ =~= base + hist_lines_rep(
            name@,
            sv.subrange(0, 0),
            bounds@,
            opt_pairs_view(*gl),
            sum_scale as nat,
        ));
    }
    while i < n
        invariant
            0 <= i <= n,
            n == series@.len(),
            sum_scale == 6 || sum_scale == 9,
            sv == crate::metrics::hists_view(series@),
            crate::metrics::series_wf(sv, bounds@.len() as int),
            out@ == base + hist_lines_rep(
                name@,
                sv.subrange(0, i as int),
                bounds@,
                opt_pairs_view(*gl),
                sum_scale as nat,
            ),
        decreases n - i,
    {
        proof {
            assert(sv.len() == series@.len());
            assert(sv[i as int].buckets.len() == bounds@.len() + 1);
            assert(series@[i as int]@ == sv[i as int]);
        }
        append_hist_series(out, name, &series[i], bounds, gl, sum_scale);
        proof {
            let cur = sv.subrange(0, i + 1);
            assert(cur.drop_last() =~= sv.subrange(0, i as int));
            assert(cur.last() == sv[i as int]);
            assert(out@ =~= base + hist_lines_rep(
                name@,
                cur,
                bounds@,
                opt_pairs_view(*gl),
                sum_scale as nat,
            ));
        }
        i = i + 1;
    }
    proof {
        assert(sv.subrange(0, n as int) =~= sv);
        assert(out@ =~= old(out)@ + hist_block_rep(
            name@,
            help@,
            sv,
            bounds@,
            opt_pairs_view(*gl),
            sum_scale as nat,
        ));
    }
}

/// Renders the registry's current state to the text exposition format.
/// The output is a function of the registry state alone, so rendering
/// twice with no intervening requests yields identical output.
pub fn render(reg: &crate::metrics::MetricRegistry) -> (r: String)
    requires
        crate::metrics::registry_wf(reg@),
    ensures
        r@ == render_spec(reg@),
{
    let mut out = String::new();
    append_counter_block(
        &mut out,
        "request_count",
        "total request count (since start of service)",
        &reg.request_count,
        &reg.config.global_labels,
    );
    append_counter_block(
        &mut out,
        "error_count",
        "failed request count (since start of service)",
        &reg.error_count,
        &reg.config.global_labels,
    );
    append_hist_block(
        &mut out,
        "request_duration_seconds",
        "request duration histogram (in seconds, since start of service)",
        &reg.duration_s,
        &reg.config.boundaries,
        &reg.config.global_labels,
        9,
    );
    append_hist_block(
        &mut out,
        "request_duration_ms",
        "request duration histogram (in milliseconds, since start of service)",
        &reg.duration_ms,
        &reg.config.boundaries,
        &reg.config.global_labels,
        6,
    );
    proof {
        assert(out@ =~= render_spec(reg@));
    }
    out
}

} // verus!
