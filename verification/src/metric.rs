//! Metric state machines — gauge, integer gauge and counter — their
//! builder, and the families that collect them per label set and export
//! them in the OpenMetrics text format.

use crate::registry::RegistryMap;
use crate::registry::lookup_spec;
use crate::text::dec_digits;
use crate::text::u64_to_dec;
use crate::timestamp::TimestampCell;
use vstd::prelude::*;
use vstd::std_specs::cmp::PartialEqSpec;

verus! {

/// The bit pattern a fresh gauge holds before its first recorded value:
/// the quiet NaN that floating-point code leaves for "no value yet".
/// Whether a gauge has been recorded is tracked by its own flag, never by
/// this sentinel, so a gauge explicitly set to a NaN still exports.
pub const GAUGE_UNSET_BITS: u64 = 0x7ff8_0000_0000_0000;

/// A builder assembling a metric family's name, help and unit strings,
/// and whether its metrics carry timestamps.
#[derive(Debug)]
pub struct MetricBuilder {
    name: String,
    help: String,
    unit: String,
    timestamped: bool,
}

impl MetricBuilder {
    /// The family name this builder holds.
    pub closed spec fn name_spec(&self) -> Seq<char> {
        self.name@
    }

    /// The help text this builder holds.
    pub closed spec fn help_spec(&self) -> Seq<char> {
        self.help@
    }

    /// The unit text this builder holds.
    pub closed spec fn unit_spec(&self) -> Seq<char> {
        self.unit@
    }

    /// Whether metrics built from this builder carry timestamps.
    pub closed spec fn timestamped_spec(&self) -> bool {
        self.timestamped
    }

    /// Returns a builder for a family called `name`, with empty help and
    /// unit texts and timestamps enabled.
    pub fn new(name: &str) -> (b: Self)
        ensures
            b.name_spec() == name@,
            b.help_spec() == Seq::<char>::empty(),
            b.unit_spec() == Seq::<char>::empty(),
            b.timestamped_spec(),
    {
        MetricBuilder {
            name: name.to_owned(),
            help: String::new(),
            unit: String::new(),
            timestamped: true,
        }
    }

    /// This builder with its help text replaced by `help`.
    pub fn with_help(self, help: &str) -> (b: Self)
        ensures
            b.name_spec() == self.name_spec(),
            b.help_spec() == help@,
            b.unit_spec() == self.unit_spec(),
            b.timestamped_spec() == self.timestamped_spec(),
    {
        MetricBuilder { help: help.to_owned(), ..self }
    }

    /// This builder with its unit text replaced by `unit`.
    pub fn with_unit(self, unit: &str) -> (b: Self)
        ensures
            b.name_spec() == self.name_spec(),
            b.help_spec() == self.help_spec(),
            b.unit_spec() == unit@,
            b.timestamped_spec() == self.timestamped_spec(),
    {
        MetricBuilder { unit: unit.to_owned(), ..self }
    }

    /// This builder with timestamps enabled: metrics built from it carry a
    /// [`TimestampCell`], fed a reading of the caller's time source at each
    /// update.
    pub fn with_timestamp(self) -> (b: Self)
        ensures
            b.name_spec() == self.name_spec(),
            b.help_spec() == self.help_spec(),
            b.unit_spec() == self.unit_spec(),
            b.timestamped_spec(),
    {
        MetricBuilder { timestamped: true, ..self }
    }

    /// This builder with timestamps disabled: metrics built from it never
    /// emit a trailing timestamp.
    pub fn without_timestamps(self) -> (b: Self)
        ensures
            b.name_spec() == self.name_spec(),
            b.help_spec() == self.help_spec(),
            b.unit_spec() == self.unit_spec(),
            !b.timestamped_spec(),
    {
        MetricBuilder { timestamped: false, ..self }
    }

    /// Whether metrics built from this builder carry timestamps.
    pub fn is_timestamped(&self) -> (r: bool)
        ensures
            r == self.timestamped_spec(),
    {
        self.timestamped
    }
}

/// A type that can stand in a metric family: it names its OpenMetrics
/// type, knows whether it has ever been recorded, and can be built fresh
/// from a family's builder.
pub trait Metric: Sized {
    /// The OpenMetrics type name written in the `# TYPE` line.
    spec fn type_spec() -> Seq<char>;

    /// The metric a builder constructs at claim time.
    spec fn build_spec(b: MetricBuilder) -> Self;

    /// Whether an explicit value has ever been recorded.
    spec fn recorded_spec(&self) -> bool;

    /// The seconds of the most recently accepted update, when this metric
    /// carries timestamps.
    spec fn timestamp_spec(&self) -> Option<u64>;

    /// The OpenMetrics type name written in the `# TYPE` line.
    fn type_str() -> (s: String)
        ensures
            s@ == Self::type_spec(),
    ;

    /// Whether an explicit value has ever been recorded.
    fn has_been_recorded(&self) -> (r: bool)
        ensures
            r == self.recorded_spec(),
    ;

    /// Build a fresh, unrecorded metric as `builder` configures it.
    fn build(builder: &MetricBuilder) -> (m: Self)
        ensures
            m == Self::build_spec(*builder),
    ;
}

/// A floating-point gauge. Its value is carried as the IEEE-754 bit
/// pattern of a 64-bit float: every store and load is a total bit-pattern
/// replacement, so no torn or merged value can ever be observed, and no
/// floating-point arithmetic happens here. Whether the gauge has been
/// recorded is tracked by an explicit flag.
#[derive(Debug)]
pub struct Gauge {
    value: u64,
    recorded: bool,
    timestamp: Option<TimestampCell>,
}

impl Gauge {
    /// The bit pattern of the current value.
    pub closed spec fn value_spec(&self) -> u64 {
        self.value
    }

    /// What a builder constructs: the unset sentinel bits, not recorded,
    /// with a zeroed timestamp cell exactly when the builder asks for
    /// timestamps.
    pub proof fn lemma_build(b: MetricBuilder)
        ensures
            Gauge::build_spec(b).value_spec() == GAUGE_UNSET_BITS,
            !Gauge::build_spec(b).recorded_spec(),
            Gauge::build_spec(b).timestamp_spec() == if b.timestamped_spec() {
                Some(0u64)
            } else {
                None::<u64>
            },
    {
        TimestampCell::lemma_new_spec();
    }

    /// Record the value whose bit pattern is `bits`, observed at time
    /// `now` (ignored when this gauge carries no timestamps). When the
    /// gauge carries timestamps and `now` is not strictly ahead of the
    /// stored time, the whole update — value, recorded flag and timestamp
    /// — is discarded: an older sample never overwrites a newer one.
    pub fn set_value(&mut self, bits: u64, now: u64)
        ensures
            (match old(self).timestamp_spec() {
                None => {
                    &&& final(self).value_spec() == bits
                    &&& final(self).recorded_spec()
                    &&& final(self).timestamp_spec() is None
                },
                Some(t) => {
                    if now > t {
                        &&& final(self).value_spec() == bits
                        &&& final(self).recorded_spec()
                        &&& final(self).timestamp_spec() == Some(now)
                    } else {
                        *final(self) == *old(self)
                    }
                },
            }),
    {
        if let Some(ts) = &mut self.timestamp {
            if !ts.update_if_ahead(now) {
                return;
            }
        }
        self.value = bits;
        self.recorded = true;
    }

    /// The bit pattern of the current value.
    pub fn value(&self) -> (bits: u64)
        ensures
            bits == self.value_spec(),
    {
        self.value
    }

    /// The metric point text: the given value text, then the timestamp in
    /// seconds when this gauge carries one. The value text is handed in by
    /// the caller, who renders the bit pattern with floating-point means
    /// this core does not use.
    pub fn fmt_metric(&self, value_text: &str) -> (s: String)
        ensures
            s@ == value_text@ + ts_suffix(self.timestamp_spec()),
    {
        let mut s = value_text.to_owned();
        if let Some(ts) = &self.timestamp {
            s.append(" ");
            let digits = u64_to_dec(ts.timestamp().as_secs());
            s.append(digits.as_str());
        }
        proof {
            assert(s@ =~= value_text@ + ts_suffix(self.timestamp_spec()));
        }
        s
    }
}

impl Metric for Gauge {
    open spec fn type_spec() -> Seq<char> {
        "gauge"@
    }

    closed spec fn build_spec(b: MetricBuilder) -> Gauge {
        Gauge {
            value: GAUGE_UNSET_BITS,
            recorded: false,
            timestamp: if b.timestamped_spec() {
                Some(TimestampCell::new_spec())
            } else {
                None
            },
        }
    }

    closed spec fn recorded_spec(&self) -> bool {
        self.recorded
    }

    closed spec fn timestamp_spec(&self) -> Option<u64> {
        match self.timestamp {
            Some(c) => Some(c.now_spec()),
            None => None,
        }
    }

    fn type_str() -> (s: String) {
        "gauge".to_owned()
    }

    fn has_been_recorded(&self) -> (r: bool) {
        self.recorded
    }

    fn build(builder: &MetricBuilder) -> (m: Self) {
        Gauge {
            value: GAUGE_UNSET_BITS,
            recorded: false,
            timestamp: if builder.is_timestamped() {
                Some(TimestampCell::new())
            } else {
                None
            },
        }
    }
}

/// A gauge whose value is always an unsigned integer. This is not a
/// standardized OpenMetrics type, but it exports as a standard gauge; it
/// serves platforms without 64-bit hardware floating point. "Never
/// recorded" is an explicit flag — integers have no sentinel — so a gauge
/// explicitly set to zero still exports.
#[derive(Debug)]
pub struct IntGauge {
    value: usize,
    recorded: bool,
    timestamp: Option<TimestampCell>,
}

impl IntGauge {
    /// The current value.
    pub closed spec fn value_spec(&self) -> usize {
        self.value
    }

    /// What a builder constructs: zero, not recorded, with a zeroed
    /// timestamp cell exactly when the builder asks for timestamps.
    pub proof fn lemma_build(b: MetricBuilder)
        ensures
            IntGauge::build_spec(b).value_spec() == 0,
            !IntGauge::build_spec(b).recorded_spec(),
            IntGauge::build_spec(b).timestamp_spec() == if b.timestamped_spec() {
                Some(0u64)
            } else {
                None::<u64>
            },
    {
        TimestampCell::lemma_new_spec();
    }

    /// Record `value`, observed at time `now` (ignored when this gauge
    /// carries no timestamps). When the gauge carries timestamps and `now`
    /// is not strictly ahead of the stored time, the whole update is
    /// discarded.
    pub fn set_value(&mut self, value: usize, now: u64)
        ensures
            (match old(self).timestamp_spec() {
                None => {
                    &&& final(self).value_spec() == value
                    &&& final(self).recorded_spec()
                    &&& final(self).timestamp_spec() is None
                },
                Some(t) => {
                    if now > t {
                        &&& final(self).value_spec() == value
                        &&& final(self).recorded_spec()
                        &&& final(self).timestamp_spec() == Some(now)
                    } else {
                        *final(self) == *old(self)
                    }
                },
            }),
    {
        if let Some(ts) = &mut self.timestamp {
            if !ts.update_if_ahead(now) {
                return;
            }
        }
        self.value = value;
        self.recorded = true;
    }

    /// The current value.
    pub fn value(&self) -> (v: usize)
        ensures
            v == self.value_spec(),
    {
        self.value
    }

    /// The metric point text: the value in decimal, then the timestamp in
    /// seconds when this gauge carries one.
    pub fn fmt_metric(&self) -> (s: String)
        ensures
            s@ == dec_digits(self.value_spec() as nat) + ts_suffix(self.timestamp_spec()),
    {
        let mut s = u64_to_dec(self.value as u64);
        if let Some(ts) = &self.timestamp {
            s.append(" ");
            let digits = u64_to_dec(ts.timestamp().as_secs());
            s.append(digits.as_str());
        }
        proof {
            assert(s@ =~= dec_digits(self.value_spec() as nat) + ts_suffix(
                self.timestamp_spec(),
            ));
        }
        s
    }
}

impl Metric for IntGauge {
    open spec fn type_spec() -> Seq<char> {
        "gauge"@
    }

    closed spec fn build_spec(b: MetricBuilder) -> IntGauge {
        IntGauge {
            value: 0,
            recorded: false,
            timestamp: if b.timestamped_spec() {
                Some(TimestampCell::new_spec())
            } else {
                None
            },
        }
    }

    closed spec fn recorded_spec(&self) -> bool {
        self.recorded
    }

    closed spec fn timestamp_spec(&self) -> Option<u64> {
        match self.timestamp {
            Some(c) => Some(c.now_spec()),
            None => None,
        }
    }

    fn type_str() -> (s: String) {
        "gauge".to_owned()
    }

    fn has_been_recorded(&self) -> (r: bool) {
        self.recorded
    }

    fn build(builder: &MetricBuilder) -> (m: Self) {
        IntGauge {
            value: 0,
            recorded: false,
            timestamp: if builder.is_timestamped() {
                Some(TimestampCell::new())
            } else {
                None
            },
        }
    }
}

/// A monotone counter. It starts at zero and is indistinguishable from one
/// explicitly set to zero, so it counts as recorded from the start; its
/// additions wrap on overflow, as a fixed-width atomic addition would.
#[derive(Debug)]
pub struct Counter {
    value: usize,
    timestamp: Option<TimestampCell>,
}

impl Counter {
    /// The current count.
    pub closed spec fn value_spec(&self) -> usize {
        self.value
    }

    /// What a builder constructs: zero, with a zeroed timestamp cell
    /// exactly when the builder asks for timestamps.
    pub proof fn lemma_build(b: MetricBuilder)
        ensures
            Counter::build_spec(b).value_spec() == 0,
            Counter::build_spec(b).recorded_spec(),
            Counter::build_spec(b).timestamp_spec() == if b.timestamped_spec() {
                Some(0u64)
            } else {
                None::<u64>
            },
    {
        TimestampCell::lemma_new_spec();
    }

    /// Add `value` to the count, wrapping on overflow, and return the
    /// count from before the addition. When this counter carries
    /// timestamps its stored time is first raised to `now` if that is an
    /// advance: only-increasing time is always correct for a counter,
    /// whatever order concurrent updates arrive in.
    pub fn fetch_add(&mut self, value: usize, now: u64) -> (prev: usize)
        ensures
            prev == old(self).value_spec(),
            final(self).value_spec() == vstd::wrapping::usize_specs::wrapping_add(
                old(self).value_spec(),
                value,
            ),
            final(self).timestamp_spec() == (match old(self).timestamp_spec() {
                Some(t) => Some(
                    if now > t {
                        now
                    } else {
                        t
                    },
                ),
                None => None::<u64>,
            }),
    {
        if let Some(ts) = &mut self.timestamp {
            ts.update_max(now);
        }
        let prev = self.value;
        self.value = self.value.wrapping_add(value);
        prev
    }

    /// The current count.
    pub fn value(&self) -> (v: usize)
        ensures
            v == self.value_spec(),
    {
        self.value
    }

    /// The metric point text: the count in decimal, then the timestamp in
    /// seconds when this counter carries one.
    pub fn fmt_metric(&self) -> (s: String)
        ensures
            s@ == dec_digits(self.value_spec() as nat) + ts_suffix(self.timestamp_spec()),
    {
        let mut s = u64_to_dec(self.value as u64);
        if let Some(ts) = &self.timestamp {
            s.append(" ");
            let digits = u64_to_dec(ts.timestamp().as_secs());
            s.append(digits.as_str());
        }
        proof {
            assert(s@ =~= dec_digits(self.value_spec() as nat) + ts_suffix(
                self.timestamp_spec(),
            ));
        }
        s
    }
}

impl Metric for Counter {
    open spec fn type_spec() -> Seq<char> {
        "counter"@
    }

    closed spec fn build_spec(b: MetricBuilder) -> Counter {
        Counter {
            value: 0,
            timestamp: if b.timestamped_spec() {
                Some(TimestampCell::new_spec())
            } else {
                None
            },
        }
    }

    open spec fn recorded_spec(&self) -> bool {
        true
    }

    closed spec fn timestamp_spec(&self) -> Option<u64> {
        match self.timestamp {
            Some(c) => Some(c.now_spec()),
            None => None,
        }
    }

    fn type_str() -> (s: String) {
        "counter".to_owned()
    }

    fn has_been_recorded(&self) -> (r: bool) {
        true
    }

    fn build(builder: &MetricBuilder) -> (m: Self) {
        Counter {
            value: 0,
            timestamp: if builder.is_timestamped() {
                Some(TimestampCell::new())
            } else {
                None
            },
        }
    }
}

/// The trailing timestamp of a metric point: a space and the seconds in
/// decimal, or nothing for a metric without timestamps.
pub open spec fn ts_suffix(t: Option<u64>) -> Seq<char> {
    match t {
        Some(secs) => " "@ + dec_digits(secs as nat),
        None => Seq::<char>::empty(),
    }
}

/// A type that can be written as an OpenMetrics label set: a
/// comma-separated sequence of `key="value"` items, rendering as nothing
/// when empty.
pub trait FmtLabels {
    /// The rendered label text, without the enclosing braces.
    spec fn labels_spec(&self) -> Seq<char>;

    /// Whether the label set is empty, in which case the braces around it
    /// are omitted as well.
    spec fn labels_empty_spec(&self) -> bool;

    /// The rendered label text, without the enclosing braces.
    fn fmt_labels(&self) -> (s: String)
        ensures
            s@ == self.labels_spec(),
    ;

    /// Whether the label set is empty.
    fn is_empty(&self) -> (r: bool)
        ensures
            r == self.labels_empty_spec(),
    ;
}

/// The views of a list of key-value string pairs.
pub open spec fn label_pairs_view(ps: Seq<(String, String)>) -> Seq<(Seq<char>, Seq<char>)> {
    ps.map_values(|p: (String, String)| (p.0@, p.1@))
}

/// One label, rendered: `key="value"`.
pub open spec fn label_text(p: (Seq<char>, Seq<char>)) -> Seq<char> {
    p.0 + "=\""@ + p.1 + "\""@
}

/// A whole label set, rendered: the labels in order, separated by commas.
pub open spec fn labels_text(ps: Seq<(Seq<char>, Seq<char>)>) -> Seq<char>
    decreases ps.len(),
{
    if ps.len() == 0 {
        Seq::<char>::empty()
    } else if ps.len() == 1 {
        label_text(ps[0])
    } else {
        labels_text(ps.drop_last()) + ","@ + label_text(ps.last())
    }
}

/// An ordered list of key-value string pairs identifying one metric
/// instance within a family.
#[derive(Debug)]
pub struct LabelSet {
    pairs: Vec<(String, String)>,
}

impl LabelSet {
    /// The key and value texts, in order.
    pub closed spec fn pairs_spec(&self) -> Seq<(Seq<char>, Seq<char>)> {
        label_pairs_view(self.pairs@)
    }

    /// Returns the label set holding `pairs`, in order.
    pub fn new(pairs: Vec<(String, String)>) -> (l: Self)
        ensures
            l.pairs_spec() == label_pairs_view(pairs@),
    {
        LabelSet { pairs }
    }
}

impl PartialEq for LabelSet {
    /// Two label sets are equal when they hold the same texts in the same
    /// order.
    fn eq(&self, other: &Self) -> (r: bool) {
        if self.pairs.len() != other.pairs.len() {
            proof {
                assert(self.pairs_spec().len() != other.pairs_spec().len());
            }
            return false;
        }
        let n = self.pairs.len();
        let mut i: usize = 0;
        while i < n
            invariant
                n == self.pairs@.len(),
                n == other.pairs@.len(),
                i <= n,
                forall|j: int|
                    0 <= j < i ==> (#[trigger] self.pairs_spec()[j]) == other.pairs_spec()[j],
            decreases n - i,
        {
            let a = &self.pairs[i];
            let b = &other.pairs[i];
            if !(a.0 == b.0) || !(a.1 == b.1) {
                proof {
                    assert(self.pairs_spec()[i as int] != other.pairs_spec()[i as int]);
                }
                return false;
            }
            i = i + 1;
        }
        proof {
            assert(self.pairs_spec() =~= other.pairs_spec());
        }
        true
    }
}

impl vstd::std_specs::cmp::PartialEqSpecImpl for LabelSet {
    open spec fn obeys_eq_spec() -> bool {
        true
    }

    open spec fn eq_spec(&self, other: &Self) -> bool {
        self.pairs_spec() == other.pairs_spec()
    }
}

impl FmtLabels for LabelSet {
    open spec fn labels_spec(&self) -> Seq<char> {
        labels_text(self.pairs_spec())
    }

    open spec fn labels_empty_spec(&self) -> bool {
        self.pairs_spec().len() == 0
    }

    fn fmt_labels(&self) -> (s: String) {
        let mut s = String::new();
        let n = self.pairs.len();
        let mut i: usize = 0;
        proof {
            assert(s@ =~= labels_text(self.pairs_spec().take(0)));
        }
        while i < n
            invariant
                n == self.pairs@.len(),
                i <= n,
                s@ == labels_text(self.pairs_spec().take(i as int)),
            decreases n - i,
        {
            if i > 0 {
                s.append(",");
            }
            let p = &self.pairs[i];
            s.append(p.0.as_str());
            s.append("=\"");
            s.append(p.1.as_str());
            s.append("\"");
            proof {
                let ps = self.pairs_spec();
                assert(ps.take(i + 1).drop_last() =~= ps.take(i as int));
                assert(ps.take(i + 1).last() == ps[i as int]);
                assert(s@ =~= labels_text(ps.take(i + 1)));
            }
            i = i + 1;
        }
        proof {
            assert(self.pairs_spec().take(n as int) =~= self.pairs_spec());
        }
        s
    }

    fn is_empty(&self) -> (r: bool) {
        self.pairs.len() == 0
    }
}

/// The three comment lines that open a family's exposition: `# TYPE`,
/// `# UNIT` and `# HELP`, in that order.
pub open spec fn header_text(name: Seq<char>, ty: Seq<char>, unit: Seq<char>, help: Seq<char>) -> Seq<
    char,
> {
    "# TYPE "@ + name + " "@ + ty + "\n"@ + "# UNIT "@ + name + " "@ + unit + "\n"@ + "# HELP "@
        + name + " "@ + help + "\n"@
}

/// A label set as it stands in a metric line: braced, or nothing at all
/// when the set is empty.
pub open spec fn label_block<L: FmtLabels>(l: L) -> Seq<char> {
    if l.labels_empty_spec() {
        Seq::<char>::empty()
    } else {
        "{"@ + l.labels_spec() + "}"@
    }
}

/// One metric's exposition line — name, label block, a space, the metric
/// point text, a newline — or nothing when the metric has never been
/// recorded.
pub open spec fn metric_line<L: FmtLabels, M: Metric>(
    name: Seq<char>,
    e: (L, M),
    point: Seq<char>,
) -> Seq<char> {
    if e.1.recorded_spec() {
        name + label_block(e.0) + " "@ + point + "\n"@
    } else {
        Seq::<char>::empty()
    }
}

/// The exposition lines of the first `n` entries, in claim order.
pub open spec fn metric_lines<L: FmtLabels, M: Metric>(
    name: Seq<char>,
    entries: Seq<(L, M)>,
    points: Seq<Seq<char>>,
    n: int,
) -> Seq<char>
    decreases n,
{
    if n <= 0 {
        Seq::<char>::empty()
    } else {
        metric_lines(name, entries, points, n - 1) + metric_line(name, entries[n - 1], points[n
            - 1])
    }
}

/// A family's whole exposition: the header, one line per recorded metric,
/// and a single trailing blank line. `points[i]` is the metric point text
/// of entry `i`.
pub open spec fn export_text<L: FmtLabels, M: Metric>(
    name: Seq<char>,
    unit: Seq<char>,
    help: Seq<char>,
    entries: Seq<(L, M)>,
    points: Seq<Seq<char>>,
) -> Seq<char> {
    header_text(name, M::type_spec(), unit, help) + metric_lines(
        name,
        entries,
        points,
        entries.len() as int,
    ) + "\n"@
}

/// A collection of metric points sharing one name, help and unit,
/// differentiated by label set: a [`RegistryMap`] from label sets to
/// metrics, plus the builder that configured it.
#[derive(Debug)]
pub struct MetricFamily<M, const METRICS: usize, L = LabelSet> {
    def: MetricBuilder,
    metrics: RegistryMap<L, M, METRICS>,
}

/// A family of floating-point gauges.
pub type GaugeFamily<const METRICS: usize, L = LabelSet> = MetricFamily<Gauge, METRICS, L>;

/// A family of counters.
pub type CounterFamily<const METRICS: usize, L = LabelSet> = MetricFamily<Counter, METRICS, L>;

impl<M, const METRICS: usize, L> MetricFamily<M, METRICS, L> {
    /// The family name.
    pub closed spec fn name_spec(&self) -> Seq<char> {
        self.def.name_spec()
    }

    /// The family's help text.
    pub closed spec fn help_spec(&self) -> Seq<char> {
        self.def.help_spec()
    }

    /// The family's unit text.
    pub closed spec fn unit_spec(&self) -> Seq<char> {
        self.def.unit_spec()
    }

    /// Whether this family's metrics carry timestamps.
    pub closed spec fn timestamped_spec(&self) -> bool {
        self.def.timestamped_spec()
    }

    /// The builder this family was built from.
    pub closed spec fn def_spec(&self) -> MetricBuilder {
        self.def
    }

    /// The label-metric pairs, in claim order.
    pub closed spec fn entries_spec(&self) -> Seq<(L, M)> {
        self.metrics@
    }
}

impl<M, const METRICS: usize, L: PartialEq> MetricFamily<M, METRICS, L> {
    /// The family's invariant: its registry map is well formed.
    pub closed spec fn wf(&self) -> bool {
        self.metrics.wf()
    }

    /// The registry map holding this family's metrics.
    pub fn metrics(&self) -> (m: &RegistryMap<L, M, METRICS>)
        ensures
            m@ == self.entries_spec(),
            self.wf() ==> m.wf(),
    {
        &self.metrics
    }
}

impl MetricBuilder {
    /// Build a family of up to `METRICS` metrics keyed by [`LabelSet`]
    /// labels.
    pub fn build<M: Metric, const METRICS: usize>(self) -> (f: MetricFamily<M, METRICS>)
        ensures
            f.wf(),
            f.entries_spec() == Seq::<(LabelSet, M)>::empty(),
            f.def_spec() == self,
            f.name_spec() == self.name_spec(),
            f.help_spec() == self.help_spec(),
            f.unit_spec() == self.unit_spec(),
            f.timestamped_spec() == self.timestamped_spec(),
    {
        MetricFamily { def: self, metrics: RegistryMap::new() }
    }

    /// Build a family of up to `METRICS` metrics keyed by any label type.
    pub fn build_labeled<M: Metric, L: FmtLabels + PartialEq, const METRICS: usize>(self) -> (f:
        MetricFamily<M, METRICS, L>)
        ensures
            f.wf(),
            f.entries_spec() == Seq::<(L, M)>::empty(),
            f.def_spec() == self,
            f.name_spec() == self.name_spec(),
            f.help_spec() == self.help_spec(),
            f.unit_spec() == self.unit_spec(),
            f.timestamped_spec() == self.timestamped_spec(),
    {
        MetricFamily { def: self, metrics: RegistryMap::new() }
    }
}

impl<M: Metric, const METRICS: usize, L: FmtLabels + PartialEq> MetricFamily<M, METRICS, L> {
    /// The slot index of the metric under `labels`, claiming a fresh
    /// builder-configured metric when the label set is absent; `None` when
    /// it is absent and the family is full. Registering a label set a
    /// second time returns the first call's slot.
    pub fn register(&mut self, labels: L) -> (r: Option<usize>)
        requires
            old(self).wf(),
            L::obeys_eq_spec(),
        ensures
            final(self).wf(),
            final(self).def_spec() == old(self).def_spec(),
            final(self).name_spec() == old(self).name_spec(),
            final(self).help_spec() == old(self).help_spec(),
            final(self).unit_spec() == old(self).unit_spec(),
            final(self).timestamped_spec() == old(self).timestamped_spec(),
            (match lookup_spec(old(self).entries_spec(), labels) {
                Some(j) => r == Some(j as usize) && final(self).entries_spec() == old(
                    self,
                ).entries_spec(),
                None => {
                    if old(self).entries_spec().len() < METRICS {
                        &&& r == Some(old(self).entries_spec().len() as usize)
                        &&& final(self).entries_spec() == old(self).entries_spec().push(
                            (labels, M::build_spec(old(self).def_spec())),
                        )
                    } else {
                        &&& r is None
                        &&& final(self).entries_spec() == old(self).entries_spec()
                    }
                },
            }),
    {
        let def = &self.def;
        let init = (|| -> (m: M)
            ensures
                m == M::build_spec(*def),
            { M::build(def) });
        self.metrics.get_or_register_with(labels, init)
    }

    /// A reference to the metric in slot `idx`.
    pub fn metric_at(&self, idx: usize) -> (m: &M)
        requires
            self.wf(),
            idx < self.entries_spec().len(),
        ensures
            *m == self.entries_spec()[idx as int].1,
    {
        self.metrics.value_at(idx)
    }

    /// A mutable reference to the metric in slot `idx`; its labels and the
    /// family's configuration stay as they are.
    pub fn metric_at_mut(&mut self, idx: usize) -> (m: &mut M)
        requires
            old(self).wf(),
            idx < old(self).entries_spec().len(),
        ensures
            *m == old(self).entries_spec()[idx as int].1,
            final(self).entries_spec() == old(self).entries_spec().update(
                idx as int,
                (old(self).entries_spec()[idx as int].0, *final(m)),
            ),
            final(self).wf(),
            final(self).def_spec() == old(self).def_spec(),
            final(self).name_spec() == old(self).name_spec(),
            final(self).help_spec() == old(self).help_spec(),
            final(self).unit_spec() == old(self).unit_spec(),
            final(self).timestamped_spec() == old(self).timestamped_spec(),
    {
        self.metrics.value_at_mut(idx)
    }

    /// The whole exposition with the metric point text of entry `i` given
    /// by `points[i]`; the per-type `fmt_metric` methods build those texts
    /// and call this.
    fn export_with(&self, points: &Vec<String>) -> (s: String)
        requires
            self.wf(),
            points@.len() == self.entries_spec().len(),
        ensures
            s@ == export_text::<L, M>(
                self.name_spec(),
                self.unit_spec(),
                self.help_spec(),
                self.entries_spec(),
                points@.map_values(|p: String| p@),
            ),
    {
        let ghost pts = points@.map_values(|p: String| p@);
        let ghost header = header_text(
            self.name_spec(),
            M::type_spec(),
            self.unit_spec(),
            self.help_spec(),
        );
        let mut s = String::new();
        s.append("# TYPE ");
        s.append(self.def.name.as_str());
        s.append(" ");
        let ty = M::type_str();
        s.append(ty.as_str());
        s.append("\n");
        s.append("# UNIT ");
        s.append(self.def.name.as_str());
        s.append(" ");
        s.append(self.def.unit.as_str());
        s.append("\n");
        s.append("# HELP ");
        s.append(self.def.name.as_str());
        s.append(" ");
        s.append(self.def.help.as_str());
        s.append("\n");
        proof {
            assert(s@ =~= header + metric_lines(self.name_spec(), self.entries_spec(), pts, 0));
        }
        let n = self.metrics.len();
        let mut i: usize = 0;
        while i < n
            invariant
                self.wf(),
                n == self.entries_spec().len(),
                i <= n,
                points@.len() == n,
                pts == points@.map_values(|p: String| p@),
                header == header_text(
                    self.name_spec(),
                    M::type_spec(),
                    self.unit_spec(),
                    self.help_spec(),
                ),
                s@ == header + metric_lines(self.name_spec(), self.entries_spec(), pts, i as int),
            decreases n - i,
        {
            let m = self.metrics.value_at(i);
            if m.has_been_recorded() {
                s.append(self.def.name.as_str());
                let l = self.metrics.key_at(i);
                if !l.is_empty() {
                    s.append("{");
                    let lt = l.fmt_labels();
                    s.append(lt.as_str());
                    s.append("}");
                }
                s.append(" ");
                s.append(points[i].as_str());
                s.append("\n");
            }
            proof {
                assert(pts[i as int] == points@[i as int]@);
                assert(s@ =~= header + metric_lines(
                    self.name_spec(),
                    self.entries_spec(),
                    pts,
                    i as int + 1,
                ));
            }
            i = i + 1;
        }
        s.append("\n");
        proof {
            assert(s@ =~= export_text::<L, M>(
                self.name_spec(),
                self.unit_spec(),
                self.help_spec(),
                self.entries_spec(),
                pts,
            ));
        }
        s
    }
}

/// A sum over machine integers, wrapping on overflow as the additions that
/// built it did.
pub open spec fn wrapped_sum(s: Seq<usize>) -> usize
    decreases s.len(),
{
    if s.len() == 0 {
        0
    } else {
        vstd::wrapping::usize_specs::wrapping_add(wrapped_sum(s.drop_last()), s.last())
    }
}

/// A wrapped sum whose true sum fits in a machine word is that sum.
pub proof fn lemma_wrapped_sum_no_overflow(s: Seq<usize>, total: int)
    requires
        total == seq_int_sum(s),
        total <= usize::MAX,
    ensures
        wrapped_sum(s) == total,
    decreases s.len(),
{
    if s.len() > 0 {
        lemma_wrapped_sum_no_overflow(s.drop_last(), seq_int_sum(s.drop_last()));
    }
}

/// The mathematical sum of a sequence of machine integers.
pub open spec fn seq_int_sum(s: Seq<usize>) -> int
    decreases s.len(),
{
    if s.len() == 0 {
        0
    } else {
        seq_int_sum(s.drop_last()) + s.last()
    }
}

/// The values of a counter family's entries, in claim order.
pub open spec fn counter_values<L>(entries: Seq<(L, Counter)>) -> Seq<usize> {
    entries.map_values(|e: (L, Counter)| e.1.value_spec())
}

/// The metric point texts of a counter family's entries.
pub open spec fn counter_points<L>(entries: Seq<(L, Counter)>) -> Seq<Seq<char>> {
    entries.map_values(
        |e: (L, Counter)| dec_digits(e.1.value_spec() as nat) + ts_suffix(e.1.timestamp_spec()),
    )
}

impl<const METRICS: usize, L: FmtLabels + PartialEq> MetricFamily<Counter, METRICS, L> {
    /// The family's whole exposition.
    pub open spec fn export_spec(self) -> Seq<char> {
        export_text::<L, Counter>(
            self.name_spec(),
            self.unit_spec(),
            self.help_spec(),
            self.entries_spec(),
            counter_points(self.entries_spec()),
        )
    }

    /// Render the family in the OpenMetrics text format: the header
    /// comments, one line per counter (a counter counts as recorded from
    /// the start), and a trailing blank line.
    pub fn fmt_metric(&self) -> (s: String)
        requires
            self.wf(),
        ensures
            s@ == self.export_spec(),
    {
        let mut points: Vec<String> = Vec::new();
        let n = self.metrics.len();
        let mut i: usize = 0;
        while i < n
            invariant
                self.wf(),
                n == self.entries_spec().len(),
                i <= n,
                points@.len() == i,
                forall|j: int|
                    0 <= j < i ==> (#[trigger] points@[j])@ == counter_points(
                        self.entries_spec(),
                    )[j],
            decreases n - i,
        {
            let m = self.metrics.value_at(i);
            points.push(m.fmt_metric());
            i = i + 1;
        }
        let s = self.export_with(&points);
        proof {
            assert(points@.map_values(|p: String| p@) =~= counter_points(self.entries_spec()));
        }
        s
    }

    /// The smallest counter value, or `None` for an empty family.
    pub fn min_value(&self) -> (r: Option<usize>)
        requires
            self.wf(),
        ensures
            (match r {
                None => self.entries_spec().len() == 0,
                Some(m) => (exists|i: int|
                    0 <= i < self.entries_spec().len() && (#[trigger] self.entries_spec()[i]).1.value_spec()
                        == m) && (forall|i: int|
                    0 <= i < self.entries_spec().len() ==> m <= (
                    #[trigger] self.entries_spec()[i]).1.value_spec()),
            }),
    {
        let n = self.metrics.len();
        let mut best: Option<usize> = None;
        let mut i: usize = 0;
        while i < n
            invariant
                self.wf(),
                n == self.entries_spec().len(),
                i <= n,
                (match best {
                    None => i == 0,
                    Some(b) => (exists|j: int|
                        0 <= j < i && (#[trigger] self.entries_spec()[j]).1.value_spec() == b) && (
                    forall|j: int|
                        0 <= j < i ==> b <= (#[trigger] self.entries_spec()[j]).1.value_spec()),
                }),
            decreases n - i,
        {
            let v = self.metrics.value_at(i).value();
            best = match best {
                None => Some(v),
                Some(b) => if v < b {
                    Some(v)
                } else {
                    Some(b)
                },
            };
            i = i + 1;
        }
        best
    }

    /// The largest counter value, or `None` for an empty family.
    pub fn max_value(&self) -> (r: Option<usize>)
        requires
            self.wf(),
        ensures
            (match r {
                None => self.entries_spec().len() == 0,
                Some(m) => (exists|i: int|
                    0 <= i < self.entries_spec().len() && (#[trigger] self.entries_spec()[i]).1.value_spec()
                        == m) && (forall|i: int|
                    0 <= i < self.entries_spec().len() ==> m >= (
                    #[trigger] self.entries_spec()[i]).1.value_spec()),
            }),
    {
        let n = self.metrics.len();
        let mut best: Option<usize> = None;
        let mut i: usize = 0;
        while i < n
            invariant
                self.wf(),
                n == self.entries_spec().len(),
                i <= n,
                (match best {
                    None => i == 0,
                    Some(b) => (exists|j: int|
                        0 <= j < i && (#[trigger] self.entries_spec()[j]).1.value_spec() == b) && (
                    forall|j: int|
                        0 <= j < i ==> b >= (#[trigger] self.entries_spec()[j]).1.value_spec()),
                }),
            decreases n - i,
        {
            let v = self.metrics.value_at(i).value();
            best = match best {
                None => Some(v),
                Some(b) => if v > b {
                    Some(v)
                } else {
                    Some(b)
                },
            };
            i = i + 1;
        }
        best
    }

    /// The sum of every counter value, wrapping on overflow.
    pub fn total(&self) -> (r: usize)
        requires
            self.wf(),
        ensures
            r == wrapped_sum(counter_values(self.entries_spec())),
    {
        let ghost vals = counter_values(self.entries_spec());
        let n = self.metrics.len();
        let mut acc: usize = 0;
        let mut i: usize = 0;
        proof {
            assert(vals.take(0) =~= Seq::<usize>::empty());
        }
        while i < n
            invariant
                self.wf(),
                n == self.entries_spec().len(),
                i <= n,
                vals == counter_values(self.entries_spec()),
                vals.len() == n,
                acc == wrapped_sum(vals.take(i as int)),
            decreases n - i,
        {
            let v = self.metrics.value_at(i).value();
            acc = acc.wrapping_add(v);
            proof {
                assert(vals.take(i + 1).drop_last() =~= vals.take(i as int));
                assert(vals.take(i + 1).last() == vals[i as int]);
            }
            i = i + 1;
        }
        proof {
            assert(vals.take(n as int) =~= vals);
        }
        acc
    }

    /// The mean of every counter value — the wrapped sum divided by the
    /// number of counters — or `None` for an empty family.
    pub fn mean(&self) -> (r: Option<usize>)
        requires
            self.wf(),
        ensures
            (match r {
                None => self.entries_spec().len() == 0,
                Some(m) => self.entries_spec().len() > 0 && m == wrapped_sum(
                    counter_values(self.entries_spec()),
                ) as int / self.entries_spec().len() as int,
            }),
    {
        let total = self.total();
        let n = self.metrics.len();
        if n > 0 {
            Some(total / n)
        } else {
            None
        }
    }
}

/// How many of an integer-gauge family's entries have been recorded.
pub open spec fn int_gauge_recorded_count<L>(entries: Seq<(L, IntGauge)>) -> int
    decreases entries.len(),
{
    if entries.len() == 0 {
        0
    } else {
        int_gauge_recorded_count(entries.drop_last()) + if entries.last().1.recorded_spec() {
            1int
        } else {
            0int
        }
    }
}

/// The sum of an integer-gauge family's recorded values, wrapping on
/// overflow.
pub open spec fn int_gauge_recorded_sum<L>(entries: Seq<(L, IntGauge)>) -> usize
    decreases entries.len(),
{
    if entries.len() == 0 {
        0
    } else {
        let rest = int_gauge_recorded_sum(entries.drop_last());
        if entries.last().1.recorded_spec() {
            vstd::wrapping::usize_specs::wrapping_add(rest, entries.last().1.value_spec())
        } else {
            rest
        }
    }
}

/// The metric point texts of an integer-gauge family's entries.
pub open spec fn int_gauge_points<L>(entries: Seq<(L, IntGauge)>) -> Seq<Seq<char>> {
    entries.map_values(
        |e: (L, IntGauge)| dec_digits(e.1.value_spec() as nat) + ts_suffix(e.1.timestamp_spec()),
    )
}

impl<const METRICS: usize, L: FmtLabels + PartialEq> MetricFamily<IntGauge, METRICS, L> {
    /// The family's whole exposition.
    pub open spec fn export_spec(self) -> Seq<char> {
        export_text::<L, IntGauge>(
            self.name_spec(),
            self.unit_spec(),
            self.help_spec(),
            self.entries_spec(),
            int_gauge_points(self.entries_spec()),
        )
    }

    /// Render the family in the OpenMetrics text format: the header
    /// comments, one line per recorded gauge, and a trailing blank line.
    pub fn fmt_metric(&self) -> (s: String)
        requires
            self.wf(),
        ensures
            s@ == self.export_spec(),
    {
        let mut points: Vec<String> = Vec::new();
        let n = self.metrics.len();
        let mut i: usize = 0;
        while i < n
            invariant
                self.wf(),
                n == self.entries_spec().len(),
                i <= n,
                points@.len() == i,
                forall|j: int|
                    0 <= j < i ==> (#[trigger] points@[j])@ == int_gauge_points(
                        self.entries_spec(),
                    )[j],
            decreases n - i,
        {
            let m = self.metrics.value_at(i);
            points.push(m.fmt_metric());
            i = i + 1;
        }
        let s = self.export_with(&points);
        proof {
            assert(points@.map_values(|p: String| p@) =~= int_gauge_points(self.entries_spec()));
        }
        s
    }

    /// The smallest recorded value, or `None` when nothing has been
    /// recorded.
    pub fn min_value(&self) -> (r: Option<usize>)
        requires
            self.wf(),
        ensures
            (match r {
                None => forall|i: int|
                    0 <= i < self.entries_spec().len() ==> !(
                    #[trigger] self.entries_spec()[i]).1.recorded_spec(),
                Some(m) => (exists|i: int|
                    0 <= i < self.entries_spec().len() && (#[trigger] self.entries_spec()[i]).1.recorded_spec()
                        && self.entries_spec()[i].1.value_spec() == m) && (forall|i: int|
                    0 <= i < self.entries_spec().len() && (
                    #[trigger] self.entries_spec()[i]).1.recorded_spec() ==> m
                        <= self.entries_spec()[i].1.value_spec()),
            }),
    {
        let n = self.metrics.len();
        let mut best: Option<usize> = None;
        let mut i: usize = 0;
        while i < n
            invariant
                self.wf(),
                n == self.entries_spec().len(),
                i <= n,
                (match best {
                    None => forall|j: int|
                        0 <= j < i ==> !(#[trigger] self.entries_spec()[j]).1.recorded_spec(),
                    Some(b) => (exists|j: int|
                        0 <= j < i && (#[trigger] self.entries_spec()[j]).1.recorded_spec()
                            && self.entries_spec()[j].1.value_spec() == b) && (forall|j: int|
                        0 <= j < i && (#[trigger] self.entries_spec()[j]).1.recorded_spec() ==> b
                            <= self.entries_spec()[j].1.value_spec()),
                }),
            decreases n - i,
        {
            let m = self.metrics.value_at(i);
            if m.has_been_recorded() {
                let v = m.value();
                best = match best {
                    None => Some(v),
                    Some(b) => if v < b {
                        Some(v)
                    } else {
                        Some(b)
                    },
                };
            }
            i = i + 1;
        }
        best
    }

    /// The largest recorded value, or `None` when nothing has been
    /// recorded.
    pub fn max_value(&self) -> (r: Option<usize>)
        requires
            self.wf(),
        ensures
            (match r {
                None => forall|i: int|
                    0 <= i < self.entries_spec().len() ==> !(
                    #[trigger] self.entries_spec()[i]).1.recorded_spec(),
                Some(m) => (exists|i: int|
                    0 <= i < self.entries_spec().len() && (#[trigger] self.entries_spec()[i]).1.recorded_spec()
                        && self.entries_spec()[i].1.value_spec() == m) && (forall|i: int|
                    0 <= i < self.entries_spec().len() && (
                    #[trigger] self.entries_spec()[i]).1.recorded_spec() ==> m
                        >= self.entries_spec()[i].1.value_spec()),
            }),
    {
        let n = self.metrics.len();
        let mut best: Option<usize> = None;
        let mut i: usize = 0;
        while i < n
            invariant
                self.wf(),
                n == self.entries_spec().len(),
                i <= n,
                (match best {
                    None => forall|j: int|
                        0 <= j < i ==> !(#[trigger] self.entries_spec()[j]).1.recorded_spec(),
                    Some(b) => (exists|j: int|
                        0 <= j < i && (#[trigger] self.entries_spec()[j]).1.recorded_spec()
                            && self.entries_spec()[j].1.value_spec() == b) && (forall|j: int|
                        0 <= j < i && (#[trigger] self.entries_spec()[j]).1.recorded_spec() ==> b
                            >= self.entries_spec()[j].1.value_spec()),
                }),
            decreases n - i,
        {
            let m = self.metrics.value_at(i);
            if m.has_been_recorded() {
                let v = m.value();
                best = match best {
                    None => Some(v),
                    Some(b) => if v > b {
                        Some(v)
                    } else {
                        Some(b)
                    },
                };
            }
            i = i + 1;
        }
        best
    }

    /// The mean of the recorded values — their wrapped sum divided by
    /// their number — or `None` when nothing has been recorded.
    pub fn mean(&self) -> (r: Option<usize>)
        requires
            self.wf(),
        ensures
            (match r {
                None => int_gauge_recorded_count(self.entries_spec()) == 0,
                Some(m) => int_gauge_recorded_count(self.entries_spec()) > 0 && m
                    == int_gauge_recorded_sum(self.entries_spec()) as int / int_gauge_recorded_count(
                    self.entries_spec(),
                ),
            }),
    {
        let ghost entries = self.entries_spec();
        let n = self.metrics.len();
        let mut count: usize = 0;
        let mut acc: usize = 0;
        let mut i: usize = 0;
        proof {
            assert(entries.take(0) =~= Seq::<(L, IntGauge)>::empty());
        }
        while i < n
            invariant
                self.wf(),
                entries == self.entries_spec(),
                n == entries.len(),
                i <= n,
                count <= i,
                count == int_gauge_recorded_count(entries.take(i as int)),
                acc == int_gauge_recorded_sum(entries.take(i as int)),
            decreases n - i,
        {
            let m = self.metrics.value_at(i);
            if m.has_been_recorded() {
                count = count + 1;
                acc = acc.wrapping_add(m.value());
            }
            proof {
                assert(entries.take(i + 1).drop_last() =~= entries.take(i as int));
                assert(entries.take(i + 1).last() == entries[i as int]);
            }
            i = i + 1;
        }
        proof {
            assert(entries.take(n as int) =~= entries);
        }
        if count > 0 {
            Some(acc / count)
        } else {
            None
        }
    }
}

/// Gauge recorded semantics: a freshly claimed gauge contributes nothing
/// to the exposition, whatever its labels or point text would be, while a
/// gauge that has accepted one recorded value — zero and NaN bit patterns
/// included, since recording is a flag and never a sentinel — contributes
/// its full line.
pub proof fn lemma_gauge_recorded_semantics<L: FmtLabels>(
    b: MetricBuilder,
    g: Gauge,
    name: Seq<char>,
    l: L,
    point: Seq<char>,
)
    ensures
        metric_line(name, (l, Gauge::build_spec(b)), point) == Seq::<char>::empty(),
        g.recorded_spec() ==> metric_line(name, (l, g), point) == name + label_block(l) + " "@
            + point + "\n"@,
{
    Gauge::lemma_build(b);
}

/// The metric point texts of a gauge family's entries, given the rendered
/// value text of each entry.
pub open spec fn gauge_points<L>(entries: Seq<(L, Gauge)>, values: Seq<Seq<char>>) -> Seq<
    Seq<char>,
> {
    Seq::new(entries.len(), |i: int| values[i] + ts_suffix(entries[i].1.timestamp_spec()))
}

impl<const METRICS: usize, L: FmtLabels + PartialEq> MetricFamily<Gauge, METRICS, L> {
    /// The family's whole exposition, with the value text of entry `i`
    /// given by `values[i]`.
    pub open spec fn export_spec(self, values: Seq<Seq<char>>) -> Seq<char> {
        export_text::<L, Gauge>(
            self.name_spec(),
            self.unit_spec(),
            self.help_spec(),
            self.entries_spec(),
            gauge_points(self.entries_spec(), values),
        )
    }

    /// Render the family in the OpenMetrics text format: the header
    /// comments, one line per recorded gauge, and a trailing blank line.
    /// `values[i]` is the decimal text of entry `i`'s value; the caller
    /// renders each gauge's bit pattern with floating-point means this
    /// core does not use, and unrecorded entries' texts are ignored.
    pub fn fmt_metric(&self, values: &Vec<String>) -> (s: String)
        requires
            self.wf(),
            values@.len() == self.entries_spec().len(),
        ensures
            s@ == self.export_spec(values@.map_values(|p: String| p@)),
    {
        let ghost vals = values@.map_values(|p: String| p@);
        let mut points: Vec<String> = Vec::new();
        let n = self.metrics.len();
        let mut i: usize = 0;
        while i < n
            invariant
                self.wf(),
                n == self.entries_spec().len(),
                vals == values@.map_values(|p: String| p@),
                values@.len() == n,
                i <= n,
                points@.len() == i,
                forall|j: int|
                    0 <= j < i ==> (#[trigger] points@[j])@ == gauge_points(
                        self.entries_spec(),
                        vals,
                    )[j],
            decreases n - i,
        {
            let m = self.metrics.value_at(i);
            points.push(m.fmt_metric(values[i].as_str()));
            i = i + 1;
        }
        let s = self.export_with(&points);
        proof {
            assert(points@.map_values(|p: String| p@) =~= gauge_points(
                self.entries_spec(),
                vals,
            ));
        }
        s
    }
}

} // verus!
