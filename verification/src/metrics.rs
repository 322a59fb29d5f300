//! A lightweight metrics registry that renders in Prometheus text exposition
//! format.
use vstd::prelude::*;
use vstd::string::*;
use crate::collections::SortedMap;
#[allow(unused_imports)]
use crate::collections::{
    lemma_ascending_distinct,
    lemma_map_of,
    lemma_text_lt_total,
    lists_in_order,
};
use crate::numbers::{i64_to_string, u64_to_string};
#[allow(unused_imports)]
use crate::numbers::signed_decimal;

verus! {

/// Monotonically increasing counter, but for the end of its range, where it wraps
/// around.
#[derive(Debug)]
pub struct Counter {
    value: u64,
    help: String,
}

/// Value that can go up or down.
#[derive(Debug)]
pub struct Gauge {
    value: i64,
    help: String,
}

/// A metric: its value and what it is about.
#[verifier::ext_equal]
pub struct MetricV {
    pub value: int,
    pub help: Seq<char>,
}

impl DeepView for Counter {
    type V = MetricV;

    closed spec fn deep_view(&self) -> MetricV {
        MetricV { value: self.value as int, help: self.help@ }
    }
}

impl DeepView for Gauge {
    type V = MetricV;

    closed spec fn deep_view(&self) -> MetricV {
        MetricV { value: self.value as int, help: self.help@ }
    }
}

/// The metrics of a process.
pub struct MetricsRegistry {
    counters: SortedMap<Counter>,
    gauges: SortedMap<Gauge>,
}

/// A sum that wraps around at the end of the range of a counter.
pub open spec fn wrapped_counter(n: int) -> int {
    n % 0x1_0000_0000_0000_0000
}

/// A sum that wraps around at the ends of the range of a gauge.
pub open spec fn wrapped_gauge(n: int) -> int {
    (n + 0x8000_0000_0000_0000) % 0x1_0000_0000_0000_0000 - 0x8000_0000_0000_0000
}

/// Metrics with one more, unless there is one of that name.
pub open spec fn registered(m: Map<Seq<char>, MetricV>, name: Seq<char>, help: Seq<char>) -> Map<
    Seq<char>,
    MetricV,
> {
    if m.contains_key(name) {
        m
    } else {
        m.insert(name, MetricV { value: 0, help })
    }
}

/// Metrics with the value of one changed, where there is one of that name.
pub open spec fn with_value(m: Map<Seq<char>, MetricV>, name: Seq<char>, value: int) -> Map<
    Seq<char>,
    MetricV,
> {
    if m.contains_key(name) {
        m.insert(name, MetricV { value, help: m[name].help })
    } else {
        m
    }
}

/// The lines that say what a metric is about and of what kind it is.
pub open spec fn metric_head(name: Seq<char>, help: Seq<char>, kind: Seq<char>) -> Seq<char> {
    "# HELP "@ + name + " "@ + help + "\n"@ + "# TYPE "@ + name + " "@ + kind + "\n"@
}

/// The text of a metric.
pub open spec fn metric_text(name: Seq<char>, m: MetricV, kind: Seq<char>) -> Seq<char> {
    metric_head(name, m.help, kind) + name + " "@ + signed_decimal(m.value) + "\n"@
}

/// The text of some metrics, one after another.
pub open spec fn metrics_text(listing: Seq<(Seq<char>, MetricV)>, kind: Seq<char>) -> Seq<char>
    decreases listing.len(),
{
    if listing.len() == 0 {
        Seq::empty()
    } else {
        metrics_text(listing.drop_last(), kind) + metric_text(
            listing.last().0,
            listing.last().1,
            kind,
        )
    }
}

/// Whether a text is that of some counters and gauges, each in the order of the
/// names, the counters first.
pub open spec fn renders(
    text: Seq<char>,
    counters: Map<Seq<char>, MetricV>,
    gauges: Map<Seq<char>, MetricV>,
) -> bool {
    exists|c: Seq<(Seq<char>, MetricV)>, g: Seq<(Seq<char>, MetricV)>| #[trigger]
        lists_in_order(c, counters) && #[trigger] lists_in_order(g, gauges) && text
            == metrics_text(c, "counter"@) + metrics_text(g, "gauge"@)
}

fn append_metric(out: &mut String, name: &str, help: &str, kind: &str, value: &str)
    ensures
        final(out)@ == old(out)@ + ("# HELP "@ + name@ + " "@ + help@ + "\n"@ + "# TYPE "@ + name@
            + " "@ + kind@ + "\n"@ + name@ + " "@ + value@ + "\n"@),
{
    out.append("# HELP ");
    out.append(name);
    out.append(" ");
    out.append(help);
    out.append("\n");
    out.append("# TYPE ");
    out.append(name);
    out.append(" ");
    out.append(kind);
    out.append("\n");
    out.append(name);
    out.append(" ");
    out.append(value);
    out.append("\n");
    assert(out@ =~= old(out)@ + ("# HELP "@ + name@ + " "@ + help@ + "\n"@ + "# TYPE "@ + name@
        + " "@ + kind@ + "\n"@ + name@ + " "@ + value@ + "\n"@));
}

impl MetricsRegistry {
    /// The counters by name.
    pub closed spec fn counters(&self) -> Map<Seq<char>, MetricV> {
        self.counters.deep_view()
    }

    /// The gauges by name.
    pub closed spec fn gauges(&self) -> Map<Seq<char>, MetricV> {
        self.gauges.deep_view()
    }

    /// A registry without metrics.
    pub fn new() -> (r: Self)
        ensures
            r.counters() == Map::<Seq<char>, MetricV>::empty(),
            r.gauges() == Map::<Seq<char>, MetricV>::empty(),
    {
        MetricsRegistry { counters: SortedMap::new(), gauges: SortedMap::new() }
    }

    /// Register a counter. If it already exists, this is a no-op.
    pub fn register_counter(&mut self, name: &str, help: &str)
        ensures
            final(self).counters() == registered(old(self).counters(), name@, help@),
            final(self).gauges() == old(self).gauges(),
    {
        if self.counters.get(name).is_none() {
            self.counters.insert(name.to_owned(), Counter { value: 0, help: help.to_owned() });
        }
    }

    /// Register a gauge. If it already exists, this is a no-op.
    pub fn register_gauge(&mut self, name: &str, help: &str)
        ensures
            final(self).gauges() == registered(old(self).gauges(), name@, help@),
            final(self).counters() == old(self).counters(),
    {
        if self.gauges.get(name).is_none() {
            self.gauges.insert(name.to_owned(), Gauge { value: 0, help: help.to_owned() });
        }
    }

    /// Increment a counter by 1.
    pub fn counter_inc(&mut self, name: &str)
        ensures
            final(self).counters() == with_value(
                old(self).counters(),
                name@,
                wrapped_counter(old(self).counters()[name@].value + 1),
            ),
            final(self).gauges() == old(self).gauges(),
    {
        self.counter_add(name, 1);
    }

    /// Increment a counter by a given amount.
    pub fn counter_add(&mut self, name: &str, val: u64)
        ensures
            final(self).counters() == with_value(
                old(self).counters(),
                name@,
                wrapped_counter(old(self).counters()[name@].value + val),
            ),
            final(self).gauges() == old(self).gauges(),
    {
        let next: Option<Counter> = match self.counters.get(name) {
            Some(c) => Some(Counter { value: c.value.wrapping_add(val), help: c.help.clone() }),
            None => None,
        };
        if let Some(c) = next {
            assert(c.deep_view().value == wrapped_counter(
                old(self).counters()[name@].value + val,
            ));
            self.counters.insert(name.to_owned(), c);
        }
    }

    fn gauge_put(&mut self, name: &str, val: i64)
        ensures
            final(self).gauges() == with_value(old(self).gauges(), name@, val as int),
            final(self).counters() == old(self).counters(),
    {
        let next: Option<Gauge> = match self.gauges.get(name) {
            Some(g) => Some(Gauge { value: val, help: g.help.clone() }),
            None => None,
        };
        if let Some(g) = next {
            self.gauges.insert(name.to_owned(), g);
        }
    }

    fn gauge_value(&self, name: &str) -> (r: i64)
        ensures
            self.gauges().contains_key(name@) ==> r == self.gauges()[name@].value,
    {
        match self.gauges.get(name) {
            Some(g) => g.value,
            None => 0,
        }
    }

    /// Set a gauge to a specific value.
    pub fn gauge_set(&mut self, name: &str, val: i64)
        ensures
            final(self).gauges() == with_value(old(self).gauges(), name@, val as int),
            final(self).counters() == old(self).counters(),
    {
        self.gauge_put(name, val);
    }

    /// Increment a gauge by 1.
    pub fn gauge_inc(&mut self, name: &str)
        ensures
            final(self).gauges() == with_value(
                old(self).gauges(),
                name@,
                wrapped_gauge(old(self).gauges()[name@].value + 1),
            ),
            final(self).counters() == old(self).counters(),
    {
        let next: i64 = self.gauge_value(name).wrapping_add(1);
        self.gauge_put(name, next);
    }

    /// Decrement a gauge by 1.
    pub fn gauge_dec(&mut self, name: &str)
        ensures
            final(self).gauges() == with_value(
                old(self).gauges(),
                name@,
                wrapped_gauge(old(self).gauges()[name@].value - 1),
            ),
            final(self).counters() == old(self).counters(),
    {
        let next: i64 = self.gauge_value(name).wrapping_sub(1);
        self.gauge_put(name, next);
    }

    /// Render all metrics in Prometheus text exposition format.
    pub fn render(&self) -> (r: String)
        ensures
            renders(r@, self.counters(), self.gauges()),
    {
        let mut out: String = String::new();
        let n: usize = self.counters.len();
        let ghost c = self.counters.items();
        let mut i: usize = 0;
        assert(out@ =~= Seq::<char>::empty());
        assert(c.take(0) =~= Seq::<(Seq<char>, MetricV)>::empty());
        while i < n
            invariant
                i <= n,
                n == c.len(),
                c == self.counters.items(),
                out@ == metrics_text(c.take(i as int), "counter"@),
            decreases n - i,
        {
            assert(c.take(i + 1).drop_last() =~= c.take(i as int));
            let e: &(String, Counter) = self.counters.at(i);
            append_metric(
                &mut out,
                e.0.as_str(),
                e.1.help.as_str(),
                "counter",
                u64_to_string(e.1.value).as_str(),
            );
            i = i + 1;
        }
        assert(c.take(i as int) =~= c);
        let k: usize = self.gauges.len();
        let ghost g = self.gauges.items();
        let ghost head = out@;
        let mut j: usize = 0;
        assert(g.take(0) =~= Seq::<(Seq<char>, MetricV)>::empty());
        assert(head + Seq::<char>::empty() =~= head);
        while j < k
            invariant
                j <= k,
                k == g.len(),
                g == self.gauges.items(),
                out@ == head + metrics_text(g.take(j as int), "gauge"@),
            decreases k - j,
        {
            assert(g.take(j + 1).drop_last() =~= g.take(j as int));
            let e: &(String, Gauge) = self.gauges.at(j);
            let ghost before = out@;
            append_metric(
                &mut out,
                e.0.as_str(),
                e.1.help.as_str(),
                "gauge",
                i64_to_string(e.1.value).as_str(),
            );
            assert(out@ =~= head + (metrics_text(g.take(j as int), "gauge"@) + metric_text(
                g[j as int].0,
                g[j as int].1,
                "gauge"@,
            )));
            j = j + 1;
        }
        assert(g.take(j as int) =~= g);
        assert(lists_in_order(c, self.counters()));
        assert(lists_in_order(g, self.gauges()));
        out
    }
}

impl Default for MetricsRegistry {
    fn default() -> (r: Self)
        ensures
            r.counters() == Map::<Seq<char>, MetricV>::empty(),
            r.gauges() == Map::<Seq<char>, MetricV>::empty(),
    {
        Self::new()
    }
}

/// What is rendered depends on the metrics alone.
pub proof fn law_rendering_is_unique(
    a: Seq<char>,
    b: Seq<char>,
    counters: Map<Seq<char>, MetricV>,
    gauges: Map<Seq<char>, MetricV>,
)
    requires
        renders(a, counters, gauges),
        renders(b, counters, gauges),
    ensures
        a == b,
{
    let (c, g) = choose|c: Seq<(Seq<char>, MetricV)>, g: Seq<(Seq<char>, MetricV)>| #[trigger]
        lists_in_order(c, counters) && #[trigger] lists_in_order(g, gauges) && a == metrics_text(
            c,
            "counter"@,
        ) + metrics_text(g, "gauge"@);
    let (d, h) = choose|c: Seq<(Seq<char>, MetricV)>, g: Seq<(Seq<char>, MetricV)>| #[trigger]
        lists_in_order(c, counters) && #[trigger] lists_in_order(g, gauges) && b == metrics_text(
            c,
            "counter"@,
        ) + metrics_text(g, "gauge"@);
    crate::collections::law_order_is_unique(c, d, counters);
    crate::collections::law_order_is_unique(g, h, gauges);
}

/// Registering a metric again changes nothing, and a metric is only ever changed
/// under its own name.
pub proof fn law_registration_is_idempotent(
    m: Map<Seq<char>, MetricV>,
    name: Seq<char>,
    help: Seq<char>,
    other: Seq<char>,
    value: int,
)
    ensures
        registered(registered(m, name, help), name, other) == registered(m, name, help),
        other != name && m.contains_key(other) ==> with_value(m, name, value)[other] == m[other],
        !m.contains_key(name) ==> with_value(m, name, value) == m,
        with_value(m, name, value).dom() == m.dom(),
{
    assert(with_value(m, name, value).dom() =~= m.dom());
}

/// The metrics of a registry.
pub struct MetricsV {
    pub counters: Map<Seq<char>, MetricV>,
    pub gauges: Map<Seq<char>, MetricV>,
}

/// A call that changes a registry.
pub enum MetricCall {
    RegisterCounter(Seq<char>, Seq<char>),
    RegisterGauge(Seq<char>, Seq<char>),
    CounterInc(Seq<char>),
    CounterAdd(Seq<char>, u64),
    GaugeSet(Seq<char>, i64),
    GaugeInc(Seq<char>),
    GaugeDec(Seq<char>),
}

/// The metrics after a call.
pub open spec fn after_call(m: MetricsV, call: MetricCall) -> MetricsV {
    match call {
        MetricCall::RegisterCounter(name, help) => MetricsV {
            counters: registered(m.counters, name, help),
            ..m
        },
        MetricCall::RegisterGauge(name, help) => MetricsV {
            gauges: registered(m.gauges, name, help),
            ..m
        },
        MetricCall::CounterInc(name) => MetricsV {
            counters: with_value(m.counters, name, wrapped_counter(m.counters[name].value + 1)),
            ..m
        },
        MetricCall::CounterAdd(name, val) => MetricsV {
            counters: with_value(m.counters, name, wrapped_counter(m.counters[name].value + val)),
            ..m
        },
        MetricCall::GaugeSet(name, val) => MetricsV {
            gauges: with_value(m.gauges, name, val as int),
            ..m
        },
        MetricCall::GaugeInc(name) => MetricsV {
            gauges: with_value(m.gauges, name, wrapped_gauge(m.gauges[name].value + 1)),
            ..m
        },
        MetricCall::GaugeDec(name) => MetricsV {
            gauges: with_value(m.gauges, name, wrapped_gauge(m.gauges[name].value - 1)),
            ..m
        },
    }
}

/// The metrics after some calls, one after another.
pub open spec fn after_calls(m: MetricsV, calls: Seq<MetricCall>) -> MetricsV
    decreases calls.len(),
{
    if calls.len() == 0 {
        m
    } else {
        after_call(after_calls(m, calls.drop_last()), calls.last())
    }
}

/// Whether a call takes a counter past the end of its range.
pub open spec fn wraps(m: MetricsV, call: MetricCall) -> bool {
    match call {
        MetricCall::CounterInc(name) => m.counters.contains_key(name) && wrapped_counter(
            m.counters[name].value + 1,
        ) != m.counters[name].value + 1,
        MetricCall::CounterAdd(name, val) => m.counters.contains_key(name) && wrapped_counter(
            m.counters[name].value + val,
        ) != m.counters[name].value + val,
        _ => false,
    }
}

/// Whether none of some calls takes a counter past the end of its range.
pub open spec fn none_wraps(m: MetricsV, calls: Seq<MetricCall>) -> bool {
    forall|i: int|
        0 <= i < calls.len() ==> !wraps(after_calls(m, calls.take(i)), #[trigger] calls[i])
}

/// Whether every metric is still there, about the same and, where the values may
/// only rise, with no smaller a value.
pub open spec fn keeps(
    a: Map<Seq<char>, MetricV>,
    b: Map<Seq<char>, MetricV>,
    rising: bool,
) -> bool {
    forall|name: Seq<char>| #[trigger]
        a.contains_key(name) ==> b.contains_key(name) && b[name].help == a[name].help && (rising
            ==> a[name].value <= b[name].value)
}

/// Whether every metric of a listing is in a later one, with the same lines about
/// it, in the same order and, where the values may only rise, with no smaller a
/// value.
pub open spec fn keeps_order(
    a: Seq<(Seq<char>, MetricV)>,
    b: Seq<(Seq<char>, MetricV)>,
    kind: Seq<char>,
    rising: bool,
) -> bool {
    &&& forall|i: int|
        0 <= i < a.len() ==> exists|k: int|
            0 <= k < b.len() && (#[trigger] b[k]).0 == (#[trigger] a[i]).0 && metric_head(
                b[k].0,
                b[k].1.help,
                kind,
            ) == metric_head(a[i].0, a[i].1.help, kind) && (rising ==> a[i].1.value
                <= b[k].1.value)
    &&& forall|i: int, j: int, k: int, l: int|
        0 <= i < j < a.len() && 0 <= k < b.len() && 0 <= l < b.len() && (#[trigger] a[i]).0 == (
        #[trigger] b[k]).0 && (#[trigger] a[j]).0 == (#[trigger] b[l]).0 ==> k < l
}

proof fn lemma_calls_keep(m: MetricsV, calls: Seq<MetricCall>)
    ensures
        keeps(m.counters, after_calls(m, calls).counters, none_wraps(m, calls)),
        keeps(m.gauges, after_calls(m, calls).gauges, false),
    decreases calls.len(),
{
    if calls.len() > 0 {
        let n = calls.len() - 1;
        let init = calls.drop_last();
        lemma_calls_keep(m, init);
        assert(calls.take(n) =~= init);
        if none_wraps(m, calls) {
            assert forall|i: int| 0 <= i < init.len() implies !wraps(
                after_calls(m, init.take(i)),
                #[trigger] init[i],
            ) by {
                assert(init.take(i) =~= calls.take(i));
                assert(init[i] == calls[i]);
            }
            assert(!wraps(after_calls(m, calls.take(n)), calls[n]));
        }
    }
}

proof fn lemma_keeps_order(
    a: Seq<(Seq<char>, MetricV)>,
    b: Seq<(Seq<char>, MetricV)>,
    x: Map<Seq<char>, MetricV>,
    y: Map<Seq<char>, MetricV>,
    kind: Seq<char>,
    rising: bool,
)
    requires
        lists_in_order(a, x),
        lists_in_order(b, y),
        keeps(x, y, rising),
    ensures
        keeps_order(a, b, kind, rising),
{
    lemma_ascending_distinct(a);
    lemma_ascending_distinct(b);
    lemma_map_of(a);
    lemma_map_of(b);
    assert forall|i: int| 0 <= i < a.len() implies exists|k: int|
        0 <= k < b.len() && (#[trigger] b[k]).0 == (#[trigger] a[i]).0 && metric_head(
            b[k].0,
            b[k].1.help,
            kind,
        ) == metric_head(a[i].0, a[i].1.help, kind) && (rising ==> a[i].1.value <= b[k].1.value) by {
        assert(x.contains_key(a[i].0));
        assert(y.contains_key(a[i].0));
        let k = choose|k: int| 0 <= k < b.len() && (#[trigger] b[k]).0 == a[i].0;
        assert(b[k].1 == y[b[k].0]);
    }
    assert forall|i: int, j: int, k: int, l: int|
        0 <= i < j < a.len() && 0 <= k < b.len() && 0 <= l < b.len() && (#[trigger] a[i]).0 == (
        #[trigger] b[k]).0 && (#[trigger] a[j]).0 == (#[trigger] b[l]).0 implies k < l by {
        lemma_text_lt_total(a[i].0, a[j].0);
        lemma_text_lt_total(b[k].0, b[l].0);
    }
}

/// Whatever is done to a registry between two renderings, every metric of the
/// first is in the second, with the same lines about it and in the same order:
/// none is ever removed or renamed. As long as no counter is taken past the end of
/// its range, none is smaller in the second than in the first.
pub proof fn law_rendering_keeps_metrics(
    m: MetricsV,
    calls: Seq<MetricCall>,
    first: Seq<char>,
    second: Seq<char>,
)
    requires
        renders(first, m.counters, m.gauges),
        renders(second, after_calls(m, calls).counters, after_calls(m, calls).gauges),
    ensures
        exists|
            c: Seq<(Seq<char>, MetricV)>,
            g: Seq<(Seq<char>, MetricV)>,
            d: Seq<(Seq<char>, MetricV)>,
            h: Seq<(Seq<char>, MetricV)>,
        |
            {
                &&& first == metrics_text(c, "counter"@) + metrics_text(g, "gauge"@)
                &&& second == metrics_text(d, "counter"@) + metrics_text(h, "gauge"@)
                &&& #[trigger] keeps_order(c, d, "counter"@, none_wraps(m, calls))
                &&& #[trigger] keeps_order(g, h, "gauge"@, false)
            },
        keeps(m.counters, after_calls(m, calls).counters, none_wraps(m, calls)),
        keeps(m.gauges, after_calls(m, calls).gauges, false),
{
    let n = after_calls(m, calls);
    lemma_calls_keep(m, calls);
    let (c, g) = choose|c: Seq<(Seq<char>, MetricV)>, g: Seq<(Seq<char>, MetricV)>| #[trigger]
        lists_in_order(c, m.counters) && #[trigger] lists_in_order(g, m.gauges) && first
            == metrics_text(c, "counter"@) + metrics_text(g, "gauge"@);
    let (d, h) = choose|c: Seq<(Seq<char>, MetricV)>, g: Seq<(Seq<char>, MetricV)>| #[trigger]
        lists_in_order(c, n.counters) && #[trigger] lists_in_order(g, n.gauges) && second
            == metrics_text(c, "counter"@) + metrics_text(g, "gauge"@);
    lemma_keeps_order(c, d, m.counters, n.counters, "counter"@, none_wraps(m, calls));
    lemma_keeps_order(g, h, m.gauges, n.gauges, "gauge"@, false);
}

/// Counting adds to the counter with the name, by one or by the given amount, as
/// long as the sum fits; it changes no other counter and no gauge, and nothing at
/// all where there is no such counter.
pub proof fn law_counters_count(
    once: &mut MetricsRegistry,
    many: &mut MetricsRegistry,
    name: &str,
    val: u64,
    other: Seq<char>,
)
    requires
        call_ensures(MetricsRegistry::counter_inc, (once, name), ()),
        call_ensures(MetricsRegistry::counter_add, (many, name, val), ()),
        once.counters() == many.counters(),
        once.gauges() == many.gauges(),
        once.counters().contains_key(name@) ==> 0 <= once.counters()[name@].value && once.counters()[name@].value
            + val < u64::MAX,
        other != name@,
    ensures
        ({
            let before = old(once).counters();
            let one = final(once).counters();
            let more = final(many).counters();
            &&& before.contains_key(name@) ==> {
                &&& one[name@].value == before[name@].value + 1
                &&& more[name@].value == before[name@].value + val
                &&& one[name@].help == before[name@].help && more[name@].help
                    == before[name@].help
            }
            &&& one.dom() == before.dom() && more.dom() == before.dom()
            &&& before.contains_key(other) ==> one[other] == before[other] && more[other]
                == before[other]
            &&& final(once).gauges() == old(once).gauges()
            &&& final(many).gauges() == old(many).gauges()
        }),
{
    assert(final(once).counters().dom() =~= old(once).counters().dom());
    assert(final(many).counters().dom() =~= old(once).counters().dom());
}

/// A gauge is set to the value that it is given, and goes up and down by one, as
/// long as it stays in its range; no other gauge and no counter changes.
pub proof fn law_gauges_move(
    set: &mut MetricsRegistry,
    up: &mut MetricsRegistry,
    down: &mut MetricsRegistry,
    name: &str,
    val: i64,
    other: Seq<char>,
)
    requires
        call_ensures(MetricsRegistry::gauge_set, (set, name, val), ()),
        call_ensures(MetricsRegistry::gauge_inc, (up, name), ()),
        call_ensures(MetricsRegistry::gauge_dec, (down, name), ()),
        set.gauges() == up.gauges(),
        set.gauges() == down.gauges(),
        set.gauges().contains_key(name@),
        i64::MIN < set.gauges()[name@].value < i64::MAX,
        other != name@,
    ensures
        ({
            let before = old(set).gauges();
            &&& final(set).gauges()[name@].value == val
            &&& final(up).gauges()[name@].value == before[name@].value + 1
            &&& final(down).gauges()[name@].value == before[name@].value - 1
            &&& final(set).gauges().dom() == before.dom()
            &&& final(up).gauges().dom() == before.dom()
            &&& final(down).gauges().dom() == before.dom()
            &&& before.contains_key(other) ==> final(set).gauges()[other] == before[other]
                && final(up).gauges()[other] == before[other] && final(down).gauges()[other]
                == before[other]
            &&& final(set).counters() == old(set).counters()
            &&& final(up).counters() == old(up).counters()
            &&& final(down).counters() == old(down).counters()
        }),
{
    assert(final(set).gauges().dom() =~= old(set).gauges().dom());
    assert(final(up).gauges().dom() =~= old(set).gauges().dom());
    assert(final(down).gauges().dom() =~= old(set).gauges().dom());
}

/// A new metric starts at zero with its help; one that is there already keeps its
/// value and its help.
pub proof fn law_metrics_start_at_zero(
    c: &mut MetricsRegistry,
    g: &mut MetricsRegistry,
    name: &str,
    help: &str,
)
    requires
        call_ensures(MetricsRegistry::register_counter, (c, name, help), ()),
        call_ensures(MetricsRegistry::register_gauge, (g, name, help), ()),
    ensures
        !old(c).counters().contains_key(name@) ==> final(c).counters()
            == old(c).counters().insert(name@, MetricV { value: 0, help: help@ }),
        old(c).counters().contains_key(name@) ==> final(c).counters() == old(c).counters(),
        !old(g).gauges().contains_key(name@) ==> final(g).gauges() == old(g).gauges().insert(
            name@,
            MetricV { value: 0, help: help@ },
        ),
        old(g).gauges().contains_key(name@) ==> final(g).gauges() == old(g).gauges(),
        final(c).gauges() == old(c).gauges(),
        final(g).counters() == old(g).counters(),
{
}

/// A registry of one counter is shown as its help, its kind and its value, a line
/// each.
pub proof fn law_one_counter_is_shown(
    m: MetricsRegistry,
    name: Seq<char>,
    v: MetricV,
    r: String,
)
    requires
        call_ensures(MetricsRegistry::render, (&m,), r),
        m.counters() == map![name => v],
        m.gauges() == Map::<Seq<char>, MetricV>::empty(),
    ensures
        r@ == "# HELP "@ + name + " "@ + v.help + "\n"@ + "# TYPE "@ + name + " "@ + "counter"@
            + "\n"@ + name + " "@ + signed_decimal(v.value) + "\n"@,
{
    assert(renders(r@, m.counters(), m.gauges()));
    let (c, g) = choose|c: Seq<(Seq<char>, MetricV)>, g: Seq<(Seq<char>, MetricV)>| #[trigger]
        lists_in_order(c, m.counters()) && #[trigger] lists_in_order(g, m.gauges()) && r@
            == metrics_text(c, "counter"@) + metrics_text(g, "gauge"@);
    let one = seq![(name, v)];
    assert(one.drop_last() =~= Seq::<(Seq<char>, MetricV)>::empty());
    lemma_ascending_distinct(c);
    lemma_ascending_distinct(g);
    lemma_map_of(c);
    lemma_map_of(g);
    if g.len() > 0 {
        assert(m.gauges().contains_key(g[0].0));
    }
    assert(m.counters().contains_key(name));
    let i = choose|i: int| 0 <= i < c.len() && (#[trigger] c[i]).0 == name;
    assert(c.len() == 1) by {
        if c.len() > 1 {
            assert(0 <= 0 < c.len());
            let a = 0int;
            let b = 1int;
            assert(m.counters().contains_key(c[a].0));
            assert(m.counters().contains_key(c[b].0));
            assert(c[a].0 != c[b].0);
        }
    }
    assert(c[0].1 == v);
    assert(c =~= one);
    assert(metrics_text(one.drop_last(), "counter"@) == Seq::<char>::empty());
    assert(metrics_text(g, "gauge"@) == Seq::<char>::empty());
    let head = metric_head(name, v.help, "counter"@);
    assert(r@ =~= metric_text(name, v, "counter"@));
}

} // verus!
