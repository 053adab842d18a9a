//! Process-wide request accounting: labeled counters, the upstream latency
//! histogram, and the text exposition the scrape endpoint serves.
//!
//! The registry is plain owned state. The process creates one instance at
//! startup and passes a handle into every component that records, so tests
//! can substitute an isolated instance.

use vstd::prelude::*;

use crate::strutil::{
    dec_rep, fixed_rep, has_substring, matches_at, str_eq, u128_to_string, u64_to_fixed_string,
    u64_to_string,
};

verus! {

/// A counter incremented by 1, sticking at the maximum instead of wrapping.
pub open spec fn sat_inc(c: int) -> int {
    if c < u64::MAX {
        c + 1
    } else {
        c
    }
}

/// A sum that sticks at the maximum instead of wrapping.
pub open spec fn sat_add(s: int, d: int) -> int {
    if s + d <= u128::MAX {
        s + d
    } else {
        u128::MAX as int
    }
}

/// The count recorded for label value `k`: the first entry with that key, or
/// zero where none exists.
pub open spec fn counter_count(entries: Seq<(Seq<char>, int)>, k: Seq<char>) -> int
    decreases entries.len(),
{
    if entries.len() == 0 {
        0
    } else if entries[0].0 == k {
        entries[0].1
    } else {
        counter_count(entries.drop_first(), k)
    }
}

/// One increment for label value `k`: the first entry with that key is
/// bumped in place; a missing key is appended with count 1.
pub open spec fn counter_bump(entries: Seq<(Seq<char>, int)>, k: Seq<char>) -> Seq<
    (Seq<char>, int),
>
    decreases entries.len(),
{
    if entries.len() == 0 {
        seq![(k, 1int)]
    } else if entries[0].0 == k {
        seq![(entries[0].0, sat_inc(entries[0].1))] + entries.drop_first()
    } else {
        seq![entries[0]] + counter_bump(entries.drop_first(), k)
    }
}

/// Law: one increment for `k` raises the count of `k` by one (saturating)
/// and leaves the count of every other label value unchanged.
pub proof fn lemma_counter_bump_count(entries: Seq<(Seq<char>, int)>, k: Seq<char>, k2: Seq<char>)
    ensures
        counter_count(counter_bump(entries, k), k) == sat_inc(counter_count(entries, k)),
        k2 != k ==> counter_count(counter_bump(entries, k), k2) == counter_count(entries, k2),
    decreases entries.len(),
{
    let b = counter_bump(entries, k);
    if entries.len() == 0 {
        assert(b[0] == (k, 1int));
        assert(b.drop_first() =~= Seq::<(Seq<char>, int)>::empty());
        if k2 != k {
            assert(counter_count(b, k2) == counter_count(b.drop_first(), k2));
            assert(counter_count(b, k2) == 0);
        }
    } else if entries[0].0 == k {
        assert(b[0] == (entries[0].0, sat_inc(entries[0].1)));
        assert(b.drop_first() =~= entries.drop_first());
        assert(counter_count(b, k) == sat_inc(entries[0].1));
        if k2 != k {
            assert(counter_count(b, k2) == counter_count(entries.drop_first(), k2));
            assert(counter_count(entries, k2) == counter_count(entries.drop_first(), k2));
        }
    } else {
        lemma_counter_bump_count(entries.drop_first(), k, k2);
        assert(b[0] == entries[0]);
        assert(b.len() > 0);
        assert(b.drop_first() =~= counter_bump(entries.drop_first(), k));
        assert(counter_count(b, k) == counter_count(counter_bump(entries.drop_first(), k), k));
        assert(counter_count(entries, k) == counter_count(entries.drop_first(), k));
        if k2 != k {
            if entries[0].0 == k2 {
                assert(counter_count(b, k2) == entries[0].1);
                assert(counter_count(entries, k2) == entries[0].1);
            } else {
                assert(counter_count(b, k2) == counter_count(counter_bump(entries.drop_first(), k), k2));
                assert(counter_count(entries, k2) == counter_count(entries.drop_first(), k2));
            }
        }
    }
}

/// A counter family keyed by one label value, in insertion order.
pub struct LabeledCounter {
    entries: Vec<(String, u64)>,
}

impl LabeledCounter {
    /// The entries as (label value, count) pairs, in insertion order.
    pub closed spec fn entries_view(self) -> Seq<(Seq<char>, int)> {
        Seq::new(self.entries@.len(), |i: int| (self.entries@[i].0@, self.entries@[i].1 as int))
    }

    /// The recorded count for label value `k` (zero when never incremented).
    pub open spec fn count_of(self, k: Seq<char>) -> int {
        counter_count(self.entries_view(), k)
    }

    /// An empty counter family.
    pub fn new() -> (r: LabeledCounter)
        ensures
            r.entries_view() == Seq::<(Seq<char>, int)>::empty(),
    {
        let r = LabeledCounter { entries: Vec::new() };
        proof {
            assert(r.entries_view() =~= Seq::<(Seq<char>, int)>::empty());
        }
        r
    }

    /// Increments the count for label value `key`.
    pub fn increment(&mut self, key: &str)
        ensures
            final(self).entries_view() == counter_bump(old(self).entries_view(), key@),
    {
        let n = self.entries.len();
        let mut i: usize = 0;
        while i < n
            invariant
                n == self.entries@.len(),
                i <= n,
                self.entries@ == old(self).entries@,
                forall|j: int| 0 <= j < i ==> old(self).entries@[j].0@ != key@,
            decreases n - i,
        {
            let hit = {
                let e = &self.entries[i];
                str_eq(e.0.as_str(), key)
            };
            if hit {
                let c = self.entries[i].1;
                let newc = if c < u64::MAX {
                    c + 1
                } else {
                    c
                };
                let name = {
                    let e = &self.entries[i];
                    e.0.clone()
                };
                self.entries[i] = (name, newc);
                proof {
                    let orig = old(self).entries_view();
                    assert(orig.len() == n);
                    assert forall|j: int| 0 <= j < i implies orig[j].0 != key@ by {
                        assert(orig[j] == (old(self).entries@[j].0@, old(self).entries@[j].1 as int));
                    }
                    assert(orig[i as int] == (old(self).entries@[i as int].0@, old(
                        self,
                    ).entries@[i as int].1 as int));
                    lemma_bump_splits(orig, key@, i as int);
                    assert(self.entries_view() =~= orig.subrange(0, i as int) + seq![
                        (orig[i as int].0, sat_inc(orig[i as int].1)),
                    ] + orig.subrange(i + 1, orig.len() as int));
                }
                return ;
            }
            i += 1;
        }
        self.entries.push((String::from_str(key), 1));
        proof {
            let orig = old(self).entries_view();
            assert(orig.len() == n);
            assert forall|j: int| 0 <= j < n implies orig[j].0 != key@ by {
                assert(orig[j] == (old(self).entries@[j].0@, old(self).entries@[j].1 as int));
            }
            lemma_bump_appends(orig, key@);
            assert(self.entries_view() =~= orig.push((key@, 1int)));
        }
    }
}

/// Where the first `i` entries miss the key and entry `i` carries it, the
/// bump updates entry `i` in place.
proof fn lemma_bump_splits(entries: Seq<(Seq<char>, int)>, k: Seq<char>, i: int)
    requires
        0 <= i < entries.len(),
        forall|j: int| 0 <= j < i ==> entries[j].0 != k,
        entries[i].0 == k,
    ensures
        counter_bump(entries, k) =~= entries.subrange(0, i) + seq![(entries[i].0, sat_inc(entries[i].1))]
            + entries.subrange(i + 1, entries.len() as int),
    decreases i,
{
    if i == 0 {
        assert(counter_bump(entries, k) == seq![(entries[0].0, sat_inc(entries[0].1))]
            + entries.drop_first());
        assert(entries.subrange(0, 0) =~= Seq::<(Seq<char>, int)>::empty());
        assert(entries.drop_first() =~= entries.subrange(1, entries.len() as int));
    } else {
        let rest = entries.drop_first();
        assert(forall|j: int| 0 <= j < i - 1 ==> rest[j].0 != k);
        lemma_bump_splits(rest, k, i - 1);
        assert(counter_bump(entries, k) == seq![entries[0]] + counter_bump(rest, k));
        assert(rest.subrange(0, i - 1) =~= entries.subrange(1, i));
        assert(rest.subrange(i, rest.len() as int) =~= entries.subrange(i + 1, entries.len() as int));
        assert(seq![entries[0]] + entries.subrange(1, i) =~= entries.subrange(0, i));
    }
}

/// Where no entry carries the key, the bump appends a fresh entry.
proof fn lemma_bump_appends(entries: Seq<(Seq<char>, int)>, k: Seq<char>)
    requires
        forall|j: int| 0 <= j < entries.len() ==> entries[j].0 != k,
    ensures
        counter_bump(entries, k) =~= entries.push((k, 1int)),
    decreases entries.len(),
{
    if entries.len() == 0 {
    } else {
        lemma_bump_appends(entries.drop_first(), k);
        assert(counter_bump(entries, k) == seq![entries[0]] + counter_bump(entries.drop_first(), k));
    }
}

/// The upstream round-trip latency histogram: the sample count and the
/// nanosecond sum (rendered in seconds on scrape).
pub struct Histogram {
    count: u64,
    sum_nanos: u128,
}

impl Histogram {
    /// How many samples were recorded.
    pub closed spec fn count_view(self) -> int {
        self.count as int
    }

    /// The sum of all recorded samples, in nanoseconds.
    pub closed spec fn sum_nanos_view(self) -> int {
        self.sum_nanos as int
    }

    /// An empty histogram.
    pub fn new() -> (r: Histogram)
        ensures
            r.count_view() == 0,
            r.sum_nanos_view() == 0,
    {
        Histogram { count: 0, sum_nanos: 0 }
    }

    /// Records one latency sample.
    pub fn record(&mut self, nanos: u64)
        ensures
            final(self).count_view() == sat_inc(old(self).count_view()),
            final(self).sum_nanos_view() == sat_add(old(self).sum_nanos_view(), nanos as int),
    {
        if self.count < u64::MAX {
            self.count = self.count + 1;
        }
        if self.sum_nanos <= u128::MAX - nanos as u128 {
            self.sum_nanos = self.sum_nanos + nanos as u128;
        } else {
            self.sum_nanos = u128::MAX;
        }
    }
}

/// The whole registry: one instance per process, handed by reference into
/// every component that records an outcome.
pub struct Metrics {
    /// Requests seen by the proxy fallback, labeled by request path.
    pub requests_total: LabeledCounter,
    /// Forwarding failures, labeled by failure class.
    pub errors_total: LabeledCounter,
    /// Events posted by the frontend, labeled by route.
    pub frontend_events_total: LabeledCounter,
    /// Round-trip latency of upstream forwarding, success or failure.
    pub upstream_latency: Histogram,
    /// Requests rejected by admission control.
    pub rate_limited_total: u64,
}

/// One exposition line of a labeled counter: `name{label="key"} count`.
pub open spec fn counter_line_spec(
    name: Seq<char>,
    label: Seq<char>,
    key: Seq<char>,
    count: int,
) -> Seq<char> {
    name + "{"@ + label + "=\""@ + key + "\"} "@ + dec_rep(count) + "\n"@
}

/// The exposition lines of a labeled counter, in insertion order.
pub open spec fn counter_section_spec(
    name: Seq<char>,
    label: Seq<char>,
    entries: Seq<(Seq<char>, int)>,
) -> Seq<char>
    decreases entries.len(),
{
    if entries.len() == 0 {
        Seq::<char>::empty()
    } else {
        counter_section_spec(name, label, entries.drop_last()) + counter_line_spec(
            name,
            label,
            entries.last().0,
            entries.last().1,
        )
    }
}

/// The full text exposition of the registry.
pub open spec fn render_spec(m: Metrics) -> Seq<char> {
    counter_section_spec("proxy_requests_total"@, "path"@, m.requests_total.entries_view())
        + counter_section_spec("proxy_errors_total"@, "error_type"@, m.errors_total.entries_view())
        + counter_section_spec(
        "frontend_events_total"@,
        "route"@,
        m.frontend_events_total.entries_view(),
    ) + "proxy_rate_limited_total "@ + dec_rep(m.rate_limited_total as int) + "\n"@
        + "proxy_upstream_latency_seconds_count "@ + dec_rep(m.upstream_latency.count_view())
        + "\n"@ + "proxy_upstream_latency_seconds_sum "@ + dec_rep(
        m.upstream_latency.sum_nanos_view() / 1_000_000_000,
    ) + "."@ + fixed_rep(m.upstream_latency.sum_nanos_view() % 1_000_000_000, 9) + "\n"@
}

/// The section of a counter family with at least one entry carries the
/// counter's name.
pub proof fn lemma_section_names_counter(
    name: Seq<char>,
    label: Seq<char>,
    entries: Seq<(Seq<char>, int)>,
)
    requires
        entries.len() > 0,
    ensures
        has_substring(counter_section_spec(name, label, entries), name),
{
    let line = counter_line_spec(name, label, entries.last().0, entries.last().1);
    assert(line.subrange(0, name.len() as int) =~= name);
    assert(matches_at(line, name, 0));
    crate::strutil::lemma_has_substring_concat_right(
        counter_section_spec(name, label, entries.drop_last()),
        line,
        name,
    );
}

/// Law: a registry that has counted at least one proxied request renders an
/// exposition that contains the requests-total counter's name.
pub proof fn lemma_render_names_requests(m: Metrics)
    requires
        m.requests_total.entries_view().len() > 0,
    ensures
        has_substring(render_spec(m), "proxy_requests_total"@),
{
    let n = "proxy_requests_total"@;
    lemma_section_names_counter(n, "path"@, m.requests_total.entries_view());
    let t1 = counter_section_spec(n, "path"@, m.requests_total.entries_view());
    let t2 = t1 + counter_section_spec("proxy_errors_total"@, "error_type"@, m.errors_total.entries_view());
    crate::strutil::lemma_has_substring_concat_left(
        t1,
        counter_section_spec("proxy_errors_total"@, "error_type"@, m.errors_total.entries_view()),
        n,
    );
    let t3 = t2 + counter_section_spec("frontend_events_total"@, "route"@, m.frontend_events_total.entries_view());
    crate::strutil::lemma_has_substring_concat_left(
        t2,
        counter_section_spec("frontend_events_total"@, "route"@, m.frontend_events_total.entries_view()),
        n,
    );
    let t4 = t3 + "proxy_rate_limited_total "@;
    crate::strutil::lemma_has_substring_concat_left(t3, "proxy_rate_limited_total "@, n);
    let t5 = t4 + dec_rep(m.rate_limited_total as int);
    crate::strutil::lemma_has_substring_concat_left(t4, dec_rep(m.rate_limited_total as int), n);
    let t6 = t5 + "\n"@;
    crate::strutil::lemma_has_substring_concat_left(t5, "\n"@, n);
    let t7 = t6 + "proxy_upstream_latency_seconds_count "@;
    crate::strutil::lemma_has_substring_concat_left(t6, "proxy_upstream_latency_seconds_count "@, n);
    let t8 = t7 + dec_rep(m.upstream_latency.count_view());
    crate::strutil::lemma_has_substring_concat_left(t7, dec_rep(m.upstream_latency.count_view()), n);
    let t9 = t8 + "\n"@;
    crate::strutil::lemma_has_substring_concat_left(t8, "\n"@, n);
    let t10 = t9 + "proxy_upstream_latency_seconds_sum "@;
    crate::strutil::lemma_has_substring_concat_left(t9, "proxy_upstream_latency_seconds_sum "@, n);
    let t11 = t10 + dec_rep(m.upstream_latency.sum_nanos_view() / 1_000_000_000);
    crate::strutil::lemma_has_substring_concat_left(
        t10,
        dec_rep(m.upstream_latency.sum_nanos_view() / 1_000_000_000),
        n,
    );
    let t12 = t11 + "."@;
    crate::strutil::lemma_has_substring_concat_left(t11, "."@, n);
    let t13 = t12 + fixed_rep(m.upstream_latency.sum_nanos_view() % 1_000_000_000, 9);
    crate::strutil::lemma_has_substring_concat_left(
        t12,
        fixed_rep(m.upstream_latency.sum_nanos_view() % 1_000_000_000, 9),
        n,
    );
    crate::strutil::lemma_has_substring_concat_left(t13, "\n"@, n);
    assert(render_spec(m) == t13 + "\n"@);
}

/// Appends the exposition lines of one labeled counter.
fn append_counter_section(out: &mut String, name: &str, label: &str, c: &LabeledCounter)
    ensures
        final(out)@ == old(out)@ + counter_section_spec(name@, label@, c.entries_view()),
{
    let n = c.entries.len();
    let mut i: usize = 0;
    while i < n
        invariant
            n == c.entries@.len(),
            i <= n,
            out@ == old(out)@ + counter_section_spec(
                name@,
                label@,
                c.entries_view().subrange(0, i as int),
            ),
        decreases n - i,
    {
        out.append(name);
        out.append("{");
        out.append(label);
        out.append("=\"");
        {
            let e = &c.entries[i];
            out.append(e.0.as_str());
        }
        out.append("\"} ");
        let count = {
            let e = &c.entries[i];
            e.1
        };
        let rendered = u64_to_string(count);
        out.append(rendered.as_str());
        out.append("\n");
        proof {
            let pre = c.entries_view().subrange(0, i as int);
            let cur = c.entries_view().subrange(0, i + 1);
            assert(cur.drop_last() =~= pre);
            assert(cur.last() == c.entries_view()[i as int]);
            assert(out@ =~= old(out)@ + counter_section_spec(name@, label@, cur));
        }
        i += 1;
    }
    proof {
        assert(c.entries_view().subrange(0, n as int) =~= c.entries_view());
    }
}

impl Metrics {
    /// A registry with nothing recorded.
    pub fn new() -> (r: Metrics)
        ensures
            r.requests_total.entries_view() == Seq::<(Seq<char>, int)>::empty(),
            r.errors_total.entries_view() == Seq::<(Seq<char>, int)>::empty(),
            r.frontend_events_total.entries_view() == Seq::<(Seq<char>, int)>::empty(),
            r.upstream_latency.count_view() == 0,
            r.upstream_latency.sum_nanos_view() == 0,
            r.rate_limited_total == 0,
    {
        Metrics {
            requests_total: LabeledCounter::new(),
            errors_total: LabeledCounter::new(),
            frontend_events_total: LabeledCounter::new(),
            upstream_latency: Histogram::new(),
            rate_limited_total: 0,
        }
    }

    /// Counts one admission rejection.
    pub fn record_rate_limited(&mut self)
        ensures
            final(self).rate_limited_total as int == sat_inc(old(self).rate_limited_total as int),
            final(self).requests_total == old(self).requests_total,
            final(self).errors_total == old(self).errors_total,
            final(self).frontend_events_total == old(self).frontend_events_total,
            final(self).upstream_latency == old(self).upstream_latency,
    {
        if self.rate_limited_total < u64::MAX {
            self.rate_limited_total = self.rate_limited_total + 1;
        }
    }

    /// Renders the registry in the text exposition format.
    pub fn render(&self) -> (r: String)
        ensures
            r@ == render_spec(*self),
    {
        let mut out = String::new();
        append_counter_section(&mut out, "proxy_requests_total", "path", &self.requests_total);
        append_counter_section(&mut out, "proxy_errors_total", "error_type", &self.errors_total);
        append_counter_section(
            &mut out,
            "frontend_events_total",
            "route",
            &self.frontend_events_total,
        );
        out.append("proxy_rate_limited_total ");
        let rl = u64_to_string(self.rate_limited_total);
        out.append(rl.as_str());
        out.append("\n");
        out.append("proxy_upstream_latency_seconds_count ");
        let cnt = u64_to_string({
            let h = &self.upstream_latency;
            h.count
        });
        out.append(cnt.as_str());
        out.append("\n");
        out.append("proxy_upstream_latency_seconds_sum ");
        let sum = {
            let h = &self.upstream_latency;
            h.sum_nanos
        };
        let secs = u128_to_string(sum / 1_000_000_000);
        out.append(secs.as_str());
        out.append(".");
        let frac = u64_to_fixed_string((sum % 1_000_000_000) as u64, 9);
        out.append(frac.as_str());
        out.append("\n");
        proof {
            assert(out@ =~= render_spec(*self));
        }
        out
    }
}

} // verus!
