//! The metric registry: process-wide counters and fixed-bucket histograms
//! following the RED method (Rate, Errors, Duration), keyed by
//! {route, method, status-code} label sets.
//!
//! Durations are integral nanoseconds.  Histogram boundaries are stored in
//! nanoseconds and are expected ascending; the same boundary list serves
//! the seconds histogram (observations compared in nanoseconds) and the
//! milliseconds histogram (observations scaled by a thousand), the two
//! differing only in unit.  Counter and bucket updates saturate at the
//! integer cap instead of wrapping.

use vstd::prelude::*;
use crate::context::pairs_view;

verus! {

/// The mathematical value of a [`MetricsConfig`].
#[verifier::ext_equal]
pub ghost struct MetricsConfigV {
    pub global_labels: Option<Seq<(Seq<char>, Seq<char>)>>,
    pub boundaries: Seq<u64>,
    pub quantiles: Seq<u64>,
    pub route: Seq<char>,
}

/// Configuration for the metrics middleware, constructed once at startup
/// and immutable for the process lifetime.
#[derive(Debug)]
pub struct MetricsConfig {
    /// Optional key-value pairs added as labels to all metrics.
    pub global_labels: Option<Vec<(String, String)>>,
    /// Histogram boundaries, in nanoseconds, expected ascending.
    pub boundaries: Vec<u64>,
    /// Summary quantiles, in millionths (no exported metric uses them).
    pub quantiles: Vec<u64>,
    /// The route served by the scrape endpoint.
    pub route: String,
}

impl View for MetricsConfig {
    type V = MetricsConfigV;

    open spec fn view(&self) -> MetricsConfigV {
        MetricsConfigV {
            global_labels: match self.global_labels {
                Some(ref g) => Some(pairs_view(g@)),
                None => None,
            },
            boundaries: self.boundaries@,
            quantiles: self.quantiles@,
            route: self.route@,
        }
    }
}

/// The default boundaries: 0.001 s to 1000 s in a 1-2-4-6-8 per-decade
/// stepping, in nanoseconds.
pub open spec fn default_boundaries() -> Seq<u64> {
    seq![
        1000000u64, 2000000u64, 4000000u64, 6000000u64, 8000000u64,
        10000000u64, 20000000u64, 40000000u64, 60000000u64, 80000000u64,
        100000000u64, 200000000u64, 400000000u64, 600000000u64, 800000000u64,
        1000000000u64, 2000000000u64, 4000000000u64, 6000000000u64, 8000000000u64,
        10000000000u64, 20000000000u64, 40000000000u64, 60000000000u64, 80000000000u64,
        100000000000u64, 200000000000u64, 400000000000u64, 600000000000u64, 800000000000u64,
        1000000000000u64,
    ]
}

/// The default quantiles, in millionths: the quartiles and the nines.
pub open spec fn default_quantiles() -> Seq<u64> {
    seq![
        500000u64, 750000u64, 900000u64, 950000u64, 990000u64, 999000u64, 999900u64, 999990u64,
    ]
}

impl MetricsConfig {
    /// Initializes a configuration from its parts.
    pub fn new(
        global_labels: Option<Vec<(String, String)>>,
        boundaries: Vec<u64>,
        quantiles: Vec<u64>,
        route: String,
    ) -> (r: Self)
        ensures
            r@.global_labels == (match global_labels {
                Some(g) => Some(pairs_view(g@)),
                None => None::<Seq<(Seq<char>, Seq<char>)>>,
            }),
            r@.boundaries == boundaries@,
            r@.quantiles == quantiles@,
            r@.route == route@,
    {
        MetricsConfig { global_labels, boundaries, quantiles, route }
    }
}

impl Default for MetricsConfig {
    /// The default configuration: no global labels, the default boundary
    /// and quantile lists, and `/metrics` as the scrape route.
    fn default() -> (r: Self)
        ensures
            r@.global_labels is None,
            r@.boundaries == default_boundaries(),
            r@.quantiles == default_quantiles(),
            r@.route == "/metrics"@,
    {
        let boundaries: Vec<u64> = vec![
            1000000u64, 2000000u64, 4000000u64, 6000000u64, 8000000u64,
            10000000u64, 20000000u64, 40000000u64, 60000000u64, 80000000u64,
            100000000u64, 200000000u64, 400000000u64, 600000000u64, 800000000u64,
            1000000000u64, 2000000000u64, 4000000000u64, 6000000000u64, 8000000000u64,
            10000000000u64, 20000000000u64, 40000000000u64, 60000000000u64, 80000000000u64,
            100000000000u64, 200000000000u64, 400000000000u64, 600000000000u64, 800000000000u64,
            1000000000000u64,
        ];
        let quantiles: Vec<u64> = vec![
            500000u64, 750000u64, 900000u64, 950000u64, 990000u64, 999000u64, 999900u64, 999990u64,
        ];
        proof {
            assert(boundaries@ =~= default_boundaries());
            assert(quantiles@ =~= default_quantiles());
        }
        MetricsConfig::new(None, boundaries, quantiles, String::from_str("/metrics"))
    }
}

/// The mathematical value of a [`LabelSet`].
#[verifier::ext_equal]
pub ghost struct LabelSetV {
    pub route: Seq<char>,
    pub method: Seq<char>,
    pub status: u16,
}

/// The label dimensions of one metric series.
#[derive(Debug)]
pub struct LabelSet {
    /// The request path.
    pub route: String,
    /// The request method.
    pub method: String,
    /// The response status code.
    pub status: u16,
}

impl View for LabelSet {
    type V = LabelSetV;

    open spec fn view(&self) -> LabelSetV {
        LabelSetV { route: self.route@, method: self.method@, status: self.status }
    }
}

/// A fresh owned copy of a label set.
pub fn clone_labels(l: &LabelSet) -> (r: LabelSet)
    ensures
        r@ == l@,
{
    LabelSet {
        route: String::from_str(l.route.as_str()),
        method: String::from_str(l.method.as_str()),
        status: l.status,
    }
}

/// Whether two label sets are the same.
pub fn labels_eq(a: &LabelSet, b: &LabelSet) -> (r: bool)
    ensures
        r == (a@ == b@),
{
    let fields = a.route.eq(&b.route) && a.method.eq(&b.method) && a.status == b.status;
    proof {
        if a@.route == b@.route && a@.method == b@.method && a@.status == b@.status {
            assert(a@ =~= b@);
        }
    }
    fields
}

/// The mathematical value of a [`CounterSeries`].
#[verifier::ext_equal]
pub ghost struct CounterSeriesV {
    pub labels: LabelSetV,
    pub value: u64,
}

/// One monotonically increasing counter series.
#[derive(Debug)]
pub struct CounterSeries {
    /// The series' label set.
    pub labels: LabelSet,
    /// The current count.
    pub value: u64,
}

impl View for CounterSeries {
    type V = CounterSeriesV;

    open spec fn view(&self) -> CounterSeriesV {
        CounterSeriesV { labels: self.labels@, value: self.value }
    }
}

/// The mathematical value of a [`HistogramSeries`].
#[verifier::ext_equal]
pub ghost struct HistogramSeriesV {
    pub labels: LabelSetV,
    pub buckets: Seq<u64>,
    pub sum_ns: u64,
    pub count: u64,
}

/// One histogram series: a count per bucket (one more bucket than there
/// are boundaries, the last catching everything above them all), the sum
/// of the observed durations in nanoseconds, and the observation count.
#[derive(Debug)]
pub struct HistogramSeries {
    /// The series' label set.
    pub labels: LabelSet,
    /// Per-bucket observation counts (not cumulative).
    pub buckets: Vec<u64>,
    /// Sum of observed durations, in nanoseconds.
    pub sum_ns: u64,
    /// Number of observations.
    pub count: u64,
}

impl View for HistogramSeries {
    type V = HistogramSeriesV;

    open spec fn view(&self) -> HistogramSeriesV {
        HistogramSeriesV {
            labels: self.labels@,
            buckets: self.buckets@,
            sum_ns: self.sum_ns,
            count: self.count,
        }
    }
}

/// The value of a counter series list.
pub open spec fn counters_view(s: Seq<CounterSeries>) -> Seq<CounterSeriesV> {
    s.map_values(|c: CounterSeries| c@)
}

/// The value of a histogram series list.
pub open spec fn hists_view(s: Seq<HistogramSeries>) -> Seq<HistogramSeriesV> {
    s.map_values(|h: HistogramSeries| h@)
}

/// Addition capped at the integer maximum.
pub open spec fn sat_add(a: u64, b: u64) -> u64 {
    if a + b > u64::MAX {
        u64::MAX
    } else {
        (a + b) as u64
    }
}

/// A response with a status code in 500-599 counts as an error.
pub open spec fn is_server_error(status: u16) -> bool {
    500 <= status <= 599
}

/// The current count of the series with a label set, zero when the series
/// does not exist yet.
pub open spec fn counter_value(s: Seq<CounterSeriesV>, l: LabelSetV) -> u64
    decreases s.len(),
{
    if s.len() == 0 {
        0
    } else if s[0].labels == l {
        s[0].value
    } else {
        counter_value(s.drop_first(), l)
    }
}

/// A counter list after counting one event for a label set: the first
/// series with that label set incremented (capped), or a fresh series at
/// one appended after all others.
pub open spec fn bump_spec(s: Seq<CounterSeriesV>, l: LabelSetV) -> Seq<CounterSeriesV>
    decreases s.len(),
{
    if s.len() == 0 {
        seq![CounterSeriesV { labels: l, value: 1 }]
    } else if s[0].labels == l {
        seq![CounterSeriesV { labels: l, value: sat_add(s[0].value, 1) }] + s.drop_first()
    } else {
        seq![s[0]] + bump_spec(s.drop_first(), l)
    }
}

/// Counting an event for one label set increments exactly that label
/// set's counter by one (below the cap) and leaves every other label
/// set's count unchanged.
pub proof fn lemma_bump_value(s: Seq<CounterSeriesV>, bl: LabelSetV, l: LabelSetV)
    requires
        counter_value(s, bl) < u64::MAX,
    ensures
        counter_value(bump_spec(s, bl), l) == if l == bl {
            counter_value(s, l) + 1
        } else {
            counter_value(s, l) as int
        },
    decreases s.len(),
{
    if s.len() == 0 {
        let t = bump_spec(s, bl);
        assert(t[0].labels == bl);
        assert(t.drop_first() =~= Seq::<CounterSeriesV>::empty());
        assert(counter_value(Seq::<CounterSeriesV>::empty(), l) == 0);
        assert(counter_value(t.drop_first(), l) == 0);
    } else if s[0].labels == bl {
        let t = bump_spec(s, bl);
        assert(t[0] == CounterSeriesV { labels: bl, value: (s[0].value + 1) as u64 });
        assert(t.drop_first() =~= s.drop_first());
        assert(counter_value(t.drop_first(), l) == counter_value(s.drop_first(), l));
    } else {
        lemma_bump_value(s.drop_first(), bl, l);
        let t = bump_spec(s, bl);
        assert(t[0] == s[0]);
        assert(t.drop_first() =~= bump_spec(s.drop_first(), bl));
        assert(counter_value(t.drop_first(), l) == counter_value(bump_spec(s.drop_first(), bl), l));
    }
}

/// Counts one event for a label set.
fn bump_counter(v: &mut Vec<CounterSeries>, labels: LabelSet)
    ensures
        counters_view(final(v)@) == bump_spec(counters_view(old(v)@), labels@),
{
    let n = v.len();
    let mut i: usize = 0;
    while i < n
        invariant
            0 <= i <= n,
            n == v@.len(),
            v@ == old(v)@,
            forall|j: int| 0 <= j < i ==> (#[trigger] v@[j].labels)@ != labels@,
        decreases n - i,
    {
        if labels_eq(&v[i].labels, &labels) {
            let cur = v[i].value;
            let next = if cur == u64::MAX {
                cur
            } else {
                cur + 1
            };
            v[i] = CounterSeries { labels, value: next };
            proof {
                lemma_bump_match(counters_view(old(v)@), labels@, i as int);
                assert(counters_view(v@) =~= counters_view(old(v)@).update(
                    i as int,
                    CounterSeriesV { labels: labels@, value: sat_add(counters_view(old(v)@)[i as int].value, 1) },
                ));
            }
            return;
        }
        i = i + 1;
    }
    v.push(CounterSeries { labels, value: 1 });
    proof {
        lemma_bump_none(counters_view(old(v)@), labels@);
        assert(counters_view(v@) =~= counters_view(old(v)@).push(
            CounterSeriesV { labels: labels@, value: 1 },
        ));
    }
}

/// When the first matching series is at `j`, counting is updating it.
proof fn lemma_bump_match(s: Seq<CounterSeriesV>, l: LabelSetV, j: int)
    requires
        0 <= j < s.len(),
        s[j].labels == l,
        forall|i: int| 0 <= i < j ==> (#[trigger] s[i]).labels != l,
    ensures
        bump_spec(s, l) == s.update(
            j,
            CounterSeriesV { labels: l, value: sat_add(s[j].value, 1) },
        ),
    decreases s.len(),
{
    let t = s.update(j, CounterSeriesV { labels: l, value: sat_add(s[j].value, 1) });
    if j == 0 {
        assert(bump_spec(s, l) =~= t);
    } else {
        lemma_bump_match(s.drop_first(), l, j - 1);
        assert(s.drop_first().update(j - 1, CounterSeriesV { labels: l, value: sat_add(s[j].value, 1) })
            =~= t.drop_first());
        assert(bump_spec(s, l) =~= t);
    }
}

/// When no series matches, counting is appending a fresh series.
proof fn lemma_bump_none(s: Seq<CounterSeriesV>, l: LabelSetV)
    requires
        forall|i: int| 0 <= i < s.len() ==> (#[trigger] s[i]).labels != l,
    ensures
        bump_spec(s, l) == s.push(CounterSeriesV { labels: l, value: 1 }),
    decreases s.len(),
{
    if s.len() == 0 {
        assert(bump_spec(s, l) =~= s.push(CounterSeriesV { labels: l, value: 1 }));
    } else {
        lemma_bump_none(s.drop_first(), l);
        assert(s.drop_first().push(CounterSeriesV { labels: l, value: 1 }) =~= s.push(
            CounterSeriesV { labels: l, value: 1 },
        ).drop_first());
        assert(bump_spec(s, l) =~= s.push(CounterSeriesV { labels: l, value: 1 }));
    }
}

/// The bucket an observation falls into: the first whose boundary is at
/// least the (scaled) observation, or the final catch-all bucket.
pub open spec fn bucket_index(bounds: Seq<u64>, scaled: int) -> int
    decreases bounds.len(),
{
    if bounds.len() == 0 {
        0
    } else if scaled <= bounds[0] {
        0
    } else {
        1 + bucket_index(bounds.drop_first(), scaled)
    }
}

/// `bucket_index` is the first boundary position not below the
/// observation, or one past the last boundary.
pub proof fn lemma_bucket_index(bounds: Seq<u64>, scaled: int)
    ensures
        0 <= bucket_index(bounds, scaled) <= bounds.len(),
        bucket_index(bounds, scaled) < bounds.len() ==> scaled <= bounds[bucket_index(
            bounds,
            scaled,
        )],
        forall|j: int| 0 <= j < bucket_index(bounds, scaled) ==> scaled > bounds[j],
    decreases bounds.len(),
{
    if bounds.len() > 0 && scaled > bounds[0] {
        let t = bounds.drop_first();
        lemma_bucket_index(t, scaled);
        let bi = bucket_index(bounds, scaled);
        assert forall|j: int| 0 <= j < bi implies scaled > bounds[j] by {
            if j > 0 {
                assert(t[j - 1] == bounds[j]);
                assert(scaled > t[j - 1]);
            }
        }
        if bi < bounds.len() {
            assert(t[bi - 1] == bounds[bi]);
        }
    }
}

/// A histogram series with no observations yet.
pub open spec fn fresh_hist(l: LabelSetV, nbuckets: int) -> HistogramSeriesV {
    HistogramSeriesV {
        labels: l,
        buckets: Seq::new(nbuckets as nat, |i: int| 0u64),
        sum_ns: 0,
        count: 0,
    }
}

/// One observation recorded into a series: the bucket of the scaled
/// observation incremented, the duration added to the sum, the count
/// incremented, all capped.
pub open spec fn observe_one(
    h: HistogramSeriesV,
    bounds: Seq<u64>,
    scaled: int,
    elapsed_ns: u64,
) -> HistogramSeriesV {
    let bi = bucket_index(bounds, scaled);
    HistogramSeriesV {
        labels: h.labels,
        buckets: h.buckets.update(bi, sat_add(h.buckets[bi], 1)),
        sum_ns: sat_add(h.sum_ns, elapsed_ns),
        count: sat_add(h.count, 1),
    }
}

/// A histogram list after one observation for a label set: the first
/// series with that label set observes it, or a fresh series is appended
/// and observes it.
pub open spec fn hist_bump_spec(
    s: Seq<HistogramSeriesV>,
    bounds: Seq<u64>,
    l: LabelSetV,
    scaled: int,
    elapsed_ns: u64,
) -> Seq<HistogramSeriesV>
    decreases s.len(),
{
    if s.len() == 0 {
        seq![observe_one(fresh_hist(l, bounds.len() as int + 1), bounds, scaled, elapsed_ns)]
    } else if s[0].labels == l {
        seq![observe_one(s[0], bounds, scaled, elapsed_ns)] + s.drop_first()
    } else {
        seq![s[0]] + hist_bump_spec(s.drop_first(), bounds, l, scaled, elapsed_ns)
    }
}

/// Every series of a histogram list has one more bucket than there are
/// boundaries.
pub open spec fn series_wf(s: Seq<HistogramSeriesV>, nbounds: int) -> bool {
    forall|i: int| 0 <= i < s.len() ==> (#[trigger] s[i]).buckets.len() == nbounds + 1
}

/// An observation keeps every series' bucket list at its width.
pub proof fn lemma_hist_bump_wf(
    s: Seq<HistogramSeriesV>,
    bounds: Seq<u64>,
    l: LabelSetV,
    scaled: int,
    elapsed_ns: u64,
)
    requires
        series_wf(s, bounds.len() as int),
    ensures
        series_wf(hist_bump_spec(s, bounds, l, scaled, elapsed_ns), bounds.len() as int),
    decreases s.len(),
{
    let t = hist_bump_spec(s, bounds, l, scaled, elapsed_ns);
    lemma_bucket_index(bounds, scaled);
    if s.len() == 0 {
        assert(t[0].buckets.len() == bounds.len() + 1);
    } else if s[0].labels == l {
        assert(t[0].buckets.len() == bounds.len() + 1);
        assert(forall|i: int| 1 <= i < t.len() ==> t[i] == #[trigger] s[i]);
    } else {
        lemma_hist_bump_wf(s.drop_first(), bounds, l, scaled, elapsed_ns);
        let r = hist_bump_spec(s.drop_first(), bounds, l, scaled, elapsed_ns);
        assert(forall|i: int| 1 <= i < t.len() ==> t[i] == #[trigger] r[i - 1]);
    }
}

/// When the first matching series is at `j`, observing is updating it.
proof fn lemma_hist_match(
    s: Seq<HistogramSeriesV>,
    bounds: Seq<u64>,
    l: LabelSetV,
    scaled: int,
    elapsed_ns: u64,
    j: int,
)
    requires
        0 <= j < s.len(),
        s[j].labels == l,
        forall|i: int| 0 <= i < j ==> (#[trigger] s[i]).labels != l,
    ensures
        hist_bump_spec(s, bounds, l, scaled, elapsed_ns) == s.update(
            j,
            observe_one(s[j], bounds, scaled, elapsed_ns),
        ),
    decreases s.len(),
{
    let t = s.update(j, observe_one(s[j], bounds, scaled, elapsed_ns));
    if j == 0 {
        assert(hist_bump_spec(s, bounds, l, scaled, elapsed_ns) =~= t);
    } else {
        lemma_hist_match(s.drop_first(), bounds, l, scaled, elapsed_ns, j - 1);
        assert(s.drop_first().update(j - 1, observe_one(s[j], bounds, scaled, elapsed_ns)) =~= t.drop_first());
        assert(hist_bump_spec(s, bounds, l, scaled, elapsed_ns) =~= t);
    }
}

/// When no series matches, observing is appending a fresh observed series.
proof fn lemma_hist_none(
    s: Seq<HistogramSeriesV>,
    bounds: Seq<u64>,
    l: LabelSetV,
    scaled: int,
    elapsed_ns: u64,
)
    requires
        forall|i: int| 0 <= i < s.len() ==> (#[trigger] s[i]).labels != l,
    ensures
        hist_bump_spec(s, bounds, l, scaled, elapsed_ns) == s.push(
            observe_one(fresh_hist(l, bounds.len() as int + 1), bounds, scaled, elapsed_ns),
        ),
    decreases s.len(),
{
    let fresh = observe_one(fresh_hist(l, bounds.len() as int + 1), bounds, scaled, elapsed_ns);
    if s.len() == 0 {
        assert(hist_bump_spec(s, bounds, l, scaled, elapsed_ns) =~= s.push(fresh));
    } else {
        lemma_hist_none(s.drop_first(), bounds, l, scaled, elapsed_ns);
        assert(s.drop_first().push(fresh) =~= s.push(fresh).drop_first());
        assert(hist_bump_spec(s, bounds, l, scaled, elapsed_ns) =~= s.push(fresh));
    }
}

/// The bucket of a scaled observation, by scanning the boundaries in
/// order.
fn find_bucket(bounds: &Vec<u64>, scaled: u128) -> (r: usize)
    ensures
        r == bucket_index(bounds@, scaled as int),
        r <= bounds@.len(),
{
    proof {
        lemma_bucket_index(bounds@, scaled as int);
    }
    let n = bounds.len();
    let mut i: usize = 0;
    while i < n
        invariant
            0 <= i <= n,
            n == bounds@.len(),
            forall|j: int| 0 <= j < i ==> scaled as int > bounds@[j],
        decreases n - i,
    {
        if scaled <= bounds[i] as u128 {
            proof {
                lemma_bucket_index(bounds@, scaled as int);
            }
            return i;
        }
        i = i + 1;
    }
    n
}

/// Records one observation for a label set.
fn observe_hist(
    v: &mut Vec<HistogramSeries>,
    bounds: &Vec<u64>,
    labels: LabelSet,
    scale: u64,
    elapsed_ns: u64,
)
    requires
        scale == 1 || scale == 1000,
        bounds@.len() < usize::MAX,
        series_wf(hists_view(old(v)@), bounds@.len() as int),
    ensures
        hists_view(final(v)@) == hist_bump_spec(
            hists_view(old(v)@),
            bounds@,
            labels@,
            (elapsed_ns as int) * (scale as int),
            elapsed_ns,
        ),
{
    let scaled: u128 = (elapsed_ns as u128) * (scale as u128);
    let ghost sscaled = (elapsed_ns as int) * (scale as int);
    proof {
        assert(scaled as int == sscaled);
    }
    let n = v.len();
    let mut i: usize = 0;
    while i < n
        invariant
            0 <= i <= n,
            n == v@.len(),
            v@ == old(v)@,
            sscaled == (elapsed_ns as int) * (scale as int),
            scaled as int == sscaled,
            series_wf(hists_view(old(v)@), bounds@.len() as int),
            bounds@.len() < usize::MAX,
            forall|j: int| 0 <= j < i ==> (#[trigger] v@[j].labels)@ != labels@,
        decreases n - i,
    {
        if labels_eq(&v[i].labels, &labels) {
            let mut tmp = HistogramSeries { labels, buckets: Vec::new(), sum_ns: 0, count: 0 };
            core::mem::swap(&mut v[i], &mut tmp);
            proof {
                assert(hists_view(old(v)@).len() == old(v)@.len());
                assert(tmp@ == hists_view(old(v)@)[i as int]);
                assert(hists_view(old(v)@)[i as int].buckets.len() == bounds@.len() as int + 1);
                lemma_bucket_index(bounds@, sscaled);
            }
            let bi = find_bucket(bounds, scaled);
            proof {
                assert(tmp.buckets@.len() == bounds@.len() + 1);
            }
            let cur = tmp.buckets[bi];
            tmp.buckets[bi] = if cur == u64::MAX {
                cur
            } else {
                cur + 1
            };
            tmp.sum_ns = if elapsed_ns > u64::MAX - tmp.sum_ns {
                u64::MAX
            } else {
                tmp.sum_ns + elapsed_ns
            };
            tmp.count = if tmp.count == u64::MAX {
                tmp.count
            } else {
                tmp.count + 1
            };
            proof {
                assert(tmp@ =~= observe_one(
                    hists_view(old(v)@)[i as int],
                    bounds@,
                    sscaled,
                    elapsed_ns,
                ));
            }
            core::mem::swap(&mut v[i], &mut tmp);
            proof {
                lemma_hist_match(hists_view(old(v)@), bounds@, labels@, sscaled, elapsed_ns, i as int);
                assert(hists_view(v@) =~= hists_view(old(v)@).update(
                    i as int,
                    observe_one(hists_view(old(v)@)[i as int], bounds@, sscaled, elapsed_ns),
                ));
            }
            return;
        }
        i = i + 1;
    }
    let nb = bounds.len();
    let mut buckets: Vec<u64> = vec![0u64; nb + 1];
    let bi = find_bucket(bounds, scaled);
    buckets[bi] = 1;
    let series = HistogramSeries { labels, buckets, sum_ns: elapsed_ns, count: 1 };
    proof {
        assert(series@.buckets =~= fresh_hist(labels@, bounds@.len() as int + 1).buckets.update(
            bucket_index(bounds@, sscaled),
            1u64,
        ));
        assert(series@ =~= observe_one(
            fresh_hist(labels@, bounds@.len() as int + 1),
            bounds@,
            sscaled,
            elapsed_ns,
        ));
    }
    v.push(series);
    proof {
        lemma_hist_none(hists_view(old(v)@), bounds@, labels@, sscaled, elapsed_ns);
        assert(hists_view(v@) =~= hists_view(old(v)@).push(series@));
    }
}

/// The mathematical value of a [`MetricRegistry`].
#[verifier::ext_equal]
pub ghost struct MetricRegistryV {
    pub config: MetricsConfigV,
    pub request_count: Seq<CounterSeriesV>,
    pub error_count: Seq<CounterSeriesV>,
    pub duration_s: Seq<HistogramSeriesV>,
    pub duration_ms: Seq<HistogramSeriesV>,
}

/// Every histogram series has one more bucket than the configuration has
/// boundaries.
pub open spec fn registry_wf(r: MetricRegistryV) -> bool {
    &&& r.config.boundaries.len() < usize::MAX
    &&& series_wf(r.duration_s, r.config.boundaries.len() as int)
    &&& series_wf(r.duration_ms, r.config.boundaries.len() as int)
}

/// The process-wide registry of the fixed RED metrics: the request and
/// error counters and the request duration histograms in seconds and in
/// milliseconds.
#[derive(Debug)]
pub struct MetricRegistry {
    /// The immutable configuration.
    pub config: MetricsConfig,
    /// `request_count` series.
    pub request_count: Vec<CounterSeries>,
    /// `error_count` series.
    pub error_count: Vec<CounterSeries>,
    /// `request_duration_seconds` series.
    pub duration_s: Vec<HistogramSeries>,
    /// `request_duration_ms` series.
    pub duration_ms: Vec<HistogramSeries>,
}

impl View for MetricRegistry {
    type V = MetricRegistryV;

    open spec fn view(&self) -> MetricRegistryV {
        MetricRegistryV {
            config: self.config@,
            request_count: counters_view(self.request_count@),
            error_count: counters_view(self.error_count@),
            duration_s: hists_view(self.duration_s@),
            duration_ms: hists_view(self.duration_ms@),
        }
    }
}

impl MetricRegistry {
    /// An empty registry over a configuration.
    pub fn new(config: MetricsConfig) -> (r: Self)
        requires
            config@.boundaries.len() < usize::MAX,
        ensures
            r@.config == config@,
            r@.request_count == Seq::<CounterSeriesV>::empty(),
            r@.error_count == Seq::<CounterSeriesV>::empty(),
            r@.duration_s == Seq::<HistogramSeriesV>::empty(),
            r@.duration_ms == Seq::<HistogramSeriesV>::empty(),
            registry_wf(r@),
    {
        let r = MetricRegistry {
            config,
            request_count: Vec::new(),
            error_count: Vec::new(),
            duration_s: Vec::new(),
            duration_ms: Vec::new(),
        };
        proof {
            assert(r@.request_count =~= Seq::<CounterSeriesV>::empty());
            assert(r@.error_count =~= Seq::<CounterSeriesV>::empty());
            assert(r@.duration_s =~= Seq::<HistogramSeriesV>::empty());
            assert(r@.duration_ms =~= Seq::<HistogramSeriesV>::empty());
        }
        r
    }

    /// Records one completed request under {route, method, status}: the
    /// request counter always increments; the error counter increments
    /// exactly when the status is in 500-599; both duration histograms
    /// observe the elapsed time, the second one scaled to milliseconds.
    pub fn record(&mut self, route: String, method: String, status: u16, elapsed_ns: u64)
        requires
            registry_wf(old(self)@),
        ensures
            registry_wf(final(self)@),
            final(self)@.config == old(self)@.config,
            final(self)@.request_count == bump_spec(
                old(self)@.request_count,
                LabelSetV { route: route@, method: method@, status },
            ),
            final(self)@.error_count == (if is_server_error(status) {
                bump_spec(old(self)@.error_count, LabelSetV { route: route@, method: method@, status })
            } else {
                old(self)@.error_count
            }),
            final(self)@.duration_s == hist_bump_spec(
                old(self)@.duration_s,
                old(self)@.config.boundaries,
                LabelSetV { route: route@, method: method@, status },
                elapsed_ns as int,
                elapsed_ns,
            ),
            final(self)@.duration_ms == hist_bump_spec(
                old(self)@.duration_ms,
                old(self)@.config.boundaries,
                LabelSetV { route: route@, method: method@, status },
                (elapsed_ns as int) * 1000,
                elapsed_ns,
            ),
    {
        let labels = LabelSet { route, method, status };
        self.increment(CounterKind::RequestCount, clone_labels(&labels));
        if 500 <= status && status <= 599 {
            self.increment(CounterKind::ErrorCount, clone_labels(&labels));
        }
        self.observe(HistogramKind::DurationSeconds, elapsed_ns, clone_labels(&labels));
        self.observe(HistogramKind::DurationMs, elapsed_ns, labels);
    }

    /// Counts one event on the named counter.
    pub fn increment(&mut self, counter: CounterKind, labels: LabelSet)
        ensures
            final(self)@ == (match counter {
                CounterKind::RequestCount => MetricRegistryV {
                    request_count: bump_spec(old(self)@.request_count, labels@),
                    ..old(self)@
                },
                CounterKind::ErrorCount => MetricRegistryV {
                    error_count: bump_spec(old(self)@.error_count, labels@),
                    ..old(self)@
                },
            }),
    {
        match counter {
            CounterKind::RequestCount => {
                bump_counter(&mut self.request_count, labels);
            },
            CounterKind::ErrorCount => {
                bump_counter(&mut self.error_count, labels);
            },
        }
    }

    /// Records one duration into the named histogram, against the
    /// configured boundaries; the milliseconds histogram compares the
    /// observation scaled by a thousand.
    pub fn observe(&mut self, histogram: HistogramKind, elapsed_ns: u64, labels: LabelSet)
        requires
            registry_wf(old(self)@),
        ensures
            registry_wf(final(self)@),
            final(self)@ == (match histogram {
                HistogramKind::DurationSeconds => MetricRegistryV {
                    duration_s: hist_bump_spec(
                        old(self)@.duration_s,
                        old(self)@.config.boundaries,
                        labels@,
                        elapsed_ns as int,
                        elapsed_ns,
                    ),
                    ..old(self)@
                },
                HistogramKind::DurationMs => MetricRegistryV {
                    duration_ms: hist_bump_spec(
                        old(self)@.duration_ms,
                        old(self)@.config.boundaries,
                        labels@,
                        (elapsed_ns as int) * 1000,
                        elapsed_ns,
                    ),
                    ..old(self)@
                },
            }),
    {
        match histogram {
            HistogramKind::DurationSeconds => {
                observe_hist(&mut self.duration_s, &self.config.boundaries, labels, 1, elapsed_ns);
                proof {
                    lemma_hist_bump_wf(
                        old(self)@.duration_s,
                        old(self)@.config.boundaries,
                        labels@,
                        elapsed_ns as int,
                        elapsed_ns,
                    );
                }
            },
            HistogramKind::DurationMs => {
                observe_hist(
                    &mut self.duration_ms,
                    &self.config.boundaries,
                    labels,
                    1000,
                    elapsed_ns,
                );
                proof {
                    lemma_hist_bump_wf(
                        old(self)@.duration_ms,
                        old(self)@.config.boundaries,
                        labels@,
                        (elapsed_ns as int) * 1000,
                        elapsed_ns,
                    );
                }
            },
        }
    }

    /// The current state rendered to the exposition format.
    pub fn snapshot(&self) -> (r: String)
        requires
            registry_wf(self@),
        ensures
            r@ == crate::render::render_spec(self@),
    {
        crate::render::render(self)
    }
}

/// The fixed counters of the registry.
#[derive(Clone, Copy, PartialEq, Eq, Structural, Debug)]
pub enum CounterKind {
    /// `request_count`: every completed request.
    RequestCount,
    /// `error_count`: completed requests whose status lies in 500-599.
    ErrorCount,
}

/// The fixed histograms of the registry: the same measurement in two
/// units.
#[derive(Clone, Copy, PartialEq, Eq, Structural, Debug)]
pub enum HistogramKind {
    /// `request_duration_seconds`.
    DurationSeconds,
    /// `request_duration_ms`.
    DurationMs,
}

/// For every recorded response whose status code lies in 500-599, the
/// error counter of its label set increases by exactly one (below the
/// counter cap), and the error counter of any other label set does not
/// change; for a response with any other status code no error counter
/// changes.
pub proof fn lemma_error_count_per_request(
    before: Seq<CounterSeriesV>,
    status: u16,
    lab: LabelSetV,
    l: LabelSetV,
)
    requires
        counter_value(before, lab) < u64::MAX,
    ensures
        ({
            let after = if is_server_error(status) {
                bump_spec(before, lab)
            } else {
                before
            };
            counter_value(after, l) == counter_value(before, l) + (
            if is_server_error(status) && l == lab {
                1int
            } else {
                0int
            })
        }),
{
    if is_server_error(status) {
        lemma_bump_value(before, lab, l);
    }
}

/// The cumulative count at and below a bucket position.
pub open spec fn cumulative_count(buckets: Seq<u64>, i: int) -> nat
    decreases i + 1,
{
    if i < 0 {
        0
    } else {
        (cumulative_count(buckets, i - 1) + buckets[i]) as nat
    }
}

/// Cumulative histogram bucket counts never decrease as the boundary
/// grows: the count at a later bucket position is at least the count at
/// any earlier one, whatever the series holds.
pub proof fn lemma_cumulative_monotone(buckets: Seq<u64>, i: int, j: int)
    requires
        -1 <= i <= j < buckets.len(),
    ensures
        cumulative_count(buckets, i) <= cumulative_count(buckets, j),
    decreases j - i,
{
    if i < j {
        lemma_cumulative_monotone(buckets, i, j - 1);
    }
}

/// The metrics middleware engine.  A request for the configured scrape
/// route is answered directly with the rendered registry state, bypassing
/// all instrumentation and the downstream handler; for any other request
/// the caller runs the handler, then records the outcome.  All updates go
/// through one registry; callers running requests concurrently serialize
/// access to it.
#[derive(Debug)]
pub struct MetricsMiddleware {
    /// The registry the middleware aggregates into.
    pub registry: MetricRegistry,
}

impl View for MetricsMiddleware {
    type V = MetricRegistryV;

    open spec fn view(&self) -> MetricRegistryV {
        self.registry@
    }
}

impl MetricsMiddleware {
    /// A middleware over a fresh registry for a configuration.
    pub fn new(config: MetricsConfig) -> (r: Self)
        requires
            config@.boundaries.len() < usize::MAX,
        ensures
            r@.config == config@,
            r@.request_count == Seq::<CounterSeriesV>::empty(),
            r@.error_count == Seq::<CounterSeriesV>::empty(),
            r@.duration_s == Seq::<HistogramSeriesV>::empty(),
            r@.duration_ms == Seq::<HistogramSeriesV>::empty(),
            registry_wf(r@),
    {
        MetricsMiddleware { registry: MetricRegistry::new(config) }
    }

    /// The scrape decision: exactly when the request path equals the
    /// configured scrape route, the rendered registry state is returned as
    /// the response body and nothing else happens — no series changes and
    /// the downstream handler is not invoked.
    pub fn on_request(&self, path: &str) -> (r: Option<String>)
        requires
            registry_wf(self@),
        ensures
            match r {
                Some(body) => path@ == self@.config.route && body@ == crate::render::render_spec(
                    self@,
                ),
                None => path@ != self@.config.route,
            },
    {
        let p = String::from_str(path);
        if p.eq(&self.registry.config.route) {
            Some(crate::render::render(&self.registry))
        } else {
            None
        }
    }

    /// Records one completed request, as [`MetricRegistry::record`] does.
    pub fn on_response(&mut self, route: String, method: String, status: u16, elapsed_ns: u64)
        requires
            registry_wf(old(self)@),
        ensures
            registry_wf(final(self)@),
            final(self)@.config == old(self)@.config,
            final(self)@.request_count == bump_spec(
                old(self)@.request_count,
                LabelSetV { route: route@, method: method@, status },
            ),
            final(self)@.error_count == (if is_server_error(status) {
                bump_spec(old(self)@.error_count, LabelSetV { route: route@, method: method@, status })
            } else {
                old(self)@.error_count
            }),
            final(self)@.duration_s == hist_bump_spec(
                old(self)@.duration_s,
                old(self)@.config.boundaries,
                LabelSetV { route: route@, method: method@, status },
                elapsed_ns as int,
                elapsed_ns,
            ),
            final(self)@.duration_ms == hist_bump_spec(
                old(self)@.duration_ms,
                old(self)@.config.boundaries,
                LabelSetV { route: route@, method: method@, status },
                (elapsed_ns as int) * 1000,
                elapsed_ns,
            ),
    {
        self.registry.record(route, method, status, elapsed_ns);
    }
}

impl Default for MetricsMiddleware {
    /// A middleware over the default configuration.
    fn default() -> (r: Self)
        ensures
            r@.config.route == "/metrics"@,
            r@.config.boundaries == default_boundaries(),
            r@.request_count == Seq::<CounterSeriesV>::empty(),
            r@.error_count == Seq::<CounterSeriesV>::empty(),
            r@.duration_s == Seq::<HistogramSeriesV>::empty(),
            r@.duration_ms == Seq::<HistogramSeriesV>::empty(),
            registry_wf(r@),
    {
        MetricsMiddleware::new(MetricsConfig::default())
    }
}

} // verus!
