use tinymetrics::Counter;
use tinymetrics::Gauge;
use tinymetrics::IntGauge;
use tinymetrics::LabelSet;
use tinymetrics::Metric;
use tinymetrics::MetricBuilder;
use tinymetrics::MetricFamily;

fn labels(pairs: &[(&str, &str)]) -> LabelSet {
    let mut v: Vec<(String, String)> = Vec::new();
    for (k, val) in pairs {
        v.push((k.to_string(), val.to_string()));
    }
    LabelSet::new(v)
}

fn gauge_values<const N: usize>(family: &MetricFamily<Gauge, N>) -> Vec<String> {
    let mut out: Vec<String> = Vec::new();
    for i in 0..family.metrics().len() {
        out.push(format!("{}", f64::from_bits(family.metric_at(i).value())));
    }
    out
}

#[test]
fn gauge() {
    let mut family = MetricBuilder::new("test_gauge")
        .with_help("a test gauge")
        .with_unit("tests")
        .without_timestamps()
        .build::<Gauge, 2>();
    let metric1 = family
        .register(labels(&[("metric", "1"), ("label2", "foo")]))
        .expect("metric 1 must register");
    family.metric_at_mut(metric1).set_value((10.0f64).to_bits(), 0);

    let metric2 = family
        .register(labels(&[("metric", "2"), ("label2", "bar")]))
        .expect("metric 2 must register");
    family.metric_at_mut(metric2).set_value((22.2f64).to_bits(), 0);

    let expected = "\
    # TYPE test_gauge gauge\n\
    # UNIT test_gauge tests\n\
    # HELP test_gauge a test gauge\n\
    test_gauge{metric=\"1\",label2=\"foo\"} 10\n\
    test_gauge{metric=\"2\",label2=\"bar\"} 22.2\n\n\
    ";
    let values = gauge_values(&family);
    assert_eq!(family.fmt_metric(&values), expected);
}

#[test]
fn counter() {
    let mut family = MetricBuilder::new("test_counter")
        .with_help("a test counter")
        .with_unit("tests")
        .without_timestamps()
        .build::<Counter, 2>();

    let metric1 = family
        .register(labels(&[("metric", "1"), ("label2", "foo")]))
        .expect("metric 1 must register");
    family.metric_at_mut(metric1).fetch_add(1, 0);

    let metric2 = family
        .register(labels(&[("metric", "2"), ("label2", "bar")]))
        .expect("metric 2 must register");
    family.metric_at_mut(metric2).fetch_add(2, 0);

    let expected = "\
    # TYPE test_counter counter\n\
    # UNIT test_counter tests\n\
    # HELP test_counter a test counter\n\
    test_counter{metric=\"1\",label2=\"foo\"} 1\n\
    test_counter{metric=\"2\",label2=\"bar\"} 2\n\n\
    ";
    assert_eq!(family.fmt_metric(), expected);
}

#[test]
fn gauges_dont_start_at_0_if_unrecorded() {
    let mut family = MetricBuilder::new("test_gauge")
        .with_help("a test gauge")
        .with_unit("tests")
        .without_timestamps()
        .build::<Gauge, 2>();
    let metric1 = family
        .register(labels(&[("metric", "1"), ("label2", "foo")]))
        .expect("metric 1 must register");

    let metric2 = family
        .register(labels(&[("metric", "2"), ("label2", "bar")]))
        .expect("metric 2 must register");

    let expected = "\
        # TYPE test_gauge gauge\n\
        # UNIT test_gauge tests\n\
        # HELP test_gauge a test gauge\n\
        \n\
    ";
    let values = gauge_values(&family);
    assert_eq!(family.fmt_metric(&values), expected);

    family.metric_at_mut(metric1).set_value((10.0f64).to_bits(), 0);

    let expected = "\
        # TYPE test_gauge gauge\n\
        # UNIT test_gauge tests\n\
        # HELP test_gauge a test gauge\n\
        test_gauge{metric=\"1\",label2=\"foo\"} 10\n\
        \n\
    ";
    let values = gauge_values(&family);
    assert_eq!(family.fmt_metric(&values), expected);

    family.metric_at_mut(metric2).set_value((5.0f64).to_bits(), 0);

    let expected = "\
        # TYPE test_gauge gauge\n\
        # UNIT test_gauge tests\n\
        # HELP test_gauge a test gauge\n\
        test_gauge{metric=\"1\",label2=\"foo\"} 10\n\
        test_gauge{metric=\"2\",label2=\"bar\"} 5\n\
        \n\
    ";
    let values = gauge_values(&family);
    assert_eq!(family.fmt_metric(&values), expected);
}

#[test]
fn gauge_timestamped() {
    // The clock starts at 100 seconds and is advanced by hand between
    // updates; each update hands the family the current reading.
    let mut family = MetricBuilder::new("test_gauge")
        .with_help("a test gauge")
        .with_unit("tests")
        .with_timestamp()
        .build::<Gauge, 2>();
    let metric1 = family
        .register(labels(&[("metric", "1"), ("label2", "foo")]))
        .expect("metric 1 must register");
    family.metric_at_mut(metric1).set_value((10.0f64).to_bits(), 100);

    // advance the clock
    let metric2 = family
        .register(labels(&[("metric", "2"), ("label2", "bar")]))
        .expect("metric 2 must register");
    family.metric_at_mut(metric2).set_value((22.2f64).to_bits(), 200);

    let expected = "\
    # TYPE test_gauge gauge\n\
    # UNIT test_gauge tests\n\
    # HELP test_gauge a test gauge\n\
    test_gauge{metric=\"1\",label2=\"foo\"} 10 100\n\
    test_gauge{metric=\"2\",label2=\"bar\"} 22.2 200\n\n\
    ";
    let values = gauge_values(&family);
    assert_eq!(family.fmt_metric(&values), expected);
}

#[test]
fn counter_timestamped() {
    let mut family = MetricBuilder::new("test_counter")
        .with_help("a test counter")
        .with_unit("tests")
        .with_timestamp()
        .build::<Counter, 2>();

    let metric1 = family
        .register(labels(&[("metric", "1"), ("label2", "foo")]))
        .expect("metric 1 must register");
    family.metric_at_mut(metric1).fetch_add(1, 100);

    // advance the clock
    let metric2 = family
        .register(labels(&[("metric", "2"), ("label2", "bar")]))
        .expect("metric 2 must register");
    family.metric_at_mut(metric2).fetch_add(1, 150);

    // advance the clock again
    family.metric_at_mut(metric2).fetch_add(1, 200);

    let expected = "\
    # TYPE test_counter counter\n\
    # UNIT test_counter tests\n\
    # HELP test_counter a test counter\n\
    test_counter{metric=\"1\",label2=\"foo\"} 1 100\n\
    test_counter{metric=\"2\",label2=\"bar\"} 2 200\n\n\
    ";
    assert_eq!(family.fmt_metric(), expected);
}

#[test]
fn counter_min() {
    let mut family = MetricBuilder::new("test_counter")
        .without_timestamps()
        .build::<Counter, 3>();
    let metric1 = family
        .register(labels(&[("metric", "1"), ("label2", "foo")]))
        .expect("metric 1 must register");
    family.metric_at_mut(metric1).fetch_add(10, 0);

    let metric2 = family
        .register(labels(&[("metric", "2"), ("label2", "bar")]))
        .expect("metric 2 must register");
    family.metric_at_mut(metric2).fetch_add(22, 0);

    let metric3 = family
        .register(labels(&[("metric", "3"), ("label2", "baz")]))
        .expect("metric 2 must register");
    family.metric_at_mut(metric3).fetch_add(33, 0);

    assert_eq!(family.min_value(), Some(10));
}

#[test]
fn counter_max() {
    let mut family = MetricBuilder::new("test_counter")
        .without_timestamps()
        .build::<Counter, 3>();
    let metric1 = family
        .register(labels(&[("metric", "1"), ("label2", "foo")]))
        .expect("metric 1 must register");
    family.metric_at_mut(metric1).fetch_add(10, 0);

    let metric2 = family
        .register(labels(&[("metric", "2"), ("label2", "bar")]))
        .expect("metric 2 must register");
    family.metric_at_mut(metric2).fetch_add(22, 0);

    let metric3 = family
        .register(labels(&[("metric", "3"), ("label2", "baz")]))
        .expect("metric 2 must register");
    family.metric_at_mut(metric3).fetch_add(33, 0);

    assert_eq!(family.max_value(), Some(33));
}

#[test]
fn counter_total() {
    let mut family = MetricBuilder::new("test_counter")
        .without_timestamps()
        .build::<Counter, 4>();
    let metric1 = family
        .register(labels(&[("metric", "1"), ("label2", "foo")]))
        .expect("metric 1 must register");
    family.metric_at_mut(metric1).fetch_add(10, 0);

    // register an unrecorded metric to ensure that it doesn't get added to the
    // total.
    let _metric2 = family
        .register(labels(&[("metric", "unrecorded"), ("label2", "lol")]))
        .expect("metric 2 must register");

    let metric3 = family
        .register(labels(&[("metric", "2"), ("label2", "bar")]))
        .expect("metric 2 must register");
    family.metric_at_mut(metric3).fetch_add(22, 0);

    let metric4 = family
        .register(labels(&[("metric", "3"), ("label2", "baz")]))
        .expect("metric 2 must register");
    family.metric_at_mut(metric4).fetch_add(33, 0);

    assert_eq!(family.total(), 65);
}

#[test]
fn counter_mean() {
    let mut family = MetricBuilder::new("test_counter")
        .without_timestamps()
        .build::<Counter, 4>();
    let metric1 = family
        .register(labels(&[("metric", "1"), ("label2", "foo")]))
        .expect("metric 1 must register");
    family.metric_at_mut(metric1).fetch_add(2, 0);

    let metric2 = family
        .register(labels(&[("metric", "2"), ("label2", "bar")]))
        .expect("metric 2 must register");
    family.metric_at_mut(metric2).fetch_add(5, 0);

    let metric3 = family
        .register(labels(&[("metric", "3"), ("label2", "baz")]))
        .expect("metric 2 must register");
    family.metric_at_mut(metric3).fetch_add(14, 0);
    assert_eq!(family.mean(), Some(7));

    // N.B.: counters have different behavior with unrecorded values, since they
    // start at 0 as soon as they're registered.
    //
    // Registering a new counter without recording a value will set the mean to
    // 5, since there are now 4 counters rather than three.
    let _metric4 = family
        .register(labels(&[("metric", "4"), ("label2", "qux")]))
        .expect("metric 4 must register");
    assert_eq!(family.mean(), Some(5));
}

#[test]
fn int_gauge_zero_still_recorded() {
    let mut family = MetricBuilder::new("test_gauge")
        .with_help("a test gauge")
        .with_unit("tests")
        .without_timestamps()
        .build::<IntGauge, 2>();
    let metric1 = family
        .register(labels(&[("metric", "1"), ("label2", "foo")]))
        .expect("metric 1 must register");

    // Freshly claimed: excluded from the exposition.
    let expected = "\
        # TYPE test_gauge gauge\n\
        # UNIT test_gauge tests\n\
        # HELP test_gauge a test gauge\n\
        \n\
    ";
    assert_eq!(family.fmt_metric(), expected);
    assert!(!family.metric_at(metric1).has_been_recorded());

    // Explicitly set to zero: still recorded and exported.
    family.metric_at_mut(metric1).set_value(0, 0);
    assert!(family.metric_at(metric1).has_been_recorded());
    let expected = "\
        # TYPE test_gauge gauge\n\
        # UNIT test_gauge tests\n\
        # HELP test_gauge a test gauge\n\
        test_gauge{metric=\"1\",label2=\"foo\"} 0\n\
        \n\
    ";
    assert_eq!(family.fmt_metric(), expected);
}

#[test]
fn gauge_nan_value_still_exports() {
    // A gauge explicitly set to a NaN bit pattern is recorded: the flag,
    // not the sentinel, decides.
    let mut family = MetricBuilder::new("test_gauge")
        .without_timestamps()
        .build::<Gauge, 1>();
    let metric1 = family
        .register(labels(&[("metric", "1")]))
        .expect("metric 1 must register");
    family.metric_at_mut(metric1).set_value(f64::NAN.to_bits(), 0);
    assert!(family.metric_at(metric1).has_been_recorded());
    let values = gauge_values(&family);
    let expected = "\
        # TYPE test_gauge gauge\n\
        # UNIT test_gauge \n\
        # HELP test_gauge \n\
        test_gauge{metric=\"1\"} NaN\n\
        \n\
    ";
    assert_eq!(family.fmt_metric(&values), expected);
}

#[test]
fn int_gauge_stale_update_discarded() {
    let mut family = MetricBuilder::new("test_gauge")
        .with_timestamp()
        .build::<IntGauge, 1>();
    let m = family
        .register(labels(&[("metric", "1")]))
        .expect("metric 1 must register");
    family.metric_at_mut(m).set_value(5, 100);
    assert_eq!(family.metric_at(m).value(), 5);

    // A tied timestamp loses: value and timestamp stay as they were.
    family.metric_at_mut(m).set_value(9, 100);
    assert_eq!(family.metric_at(m).value(), 5);

    // An older timestamp loses too.
    family.metric_at_mut(m).set_value(9, 50);
    assert_eq!(family.metric_at(m).value(), 5);

    // A strictly newer timestamp wins.
    family.metric_at_mut(m).set_value(9, 101);
    assert_eq!(family.metric_at(m).value(), 9);
    let expected = "\
        # TYPE test_gauge gauge\n\
        # UNIT test_gauge \n\
        # HELP test_gauge \n\
        test_gauge{metric=\"1\"} 9 101\n\
        \n\
    ";
    assert_eq!(family.fmt_metric(), expected);
}

#[test]
fn family_full_returns_none() {
    let mut family = MetricBuilder::new("small")
        .without_timestamps()
        .build::<Counter, 1>();
    let first = family.register(labels(&[("a", "1")]));
    assert_eq!(first, Some(0));
    // The same label set comes back to the same slot.
    assert_eq!(family.register(labels(&[("a", "1")])), Some(0));
    // A new label set no longer fits.
    assert_eq!(family.register(labels(&[("a", "2")])), None);
}

#[test]
fn counter_wraps_on_overflow() {
    let mut family = MetricBuilder::new("wrap")
        .without_timestamps()
        .build::<Counter, 1>();
    let m = family.register(labels(&[])).expect("must register");
    let prev = family.metric_at_mut(m).fetch_add(usize::MAX, 0);
    assert_eq!(prev, 0);
    let prev = family.metric_at_mut(m).fetch_add(2, 0);
    assert_eq!(prev, usize::MAX);
    assert_eq!(family.metric_at(m).value(), 1);
}

#[test]
fn empty_label_set_renders_without_braces() {
    let mut family = MetricBuilder::new("plain")
        .without_timestamps()
        .build::<Counter, 1>();
    let m = family.register(labels(&[])).expect("must register");
    family.metric_at_mut(m).fetch_add(3, 0);
    let expected = "\
        # TYPE plain counter\n\
        # UNIT plain \n\
        # HELP plain \n\
        plain 3\n\
        \n\
    ";
    assert_eq!(family.fmt_metric(), expected);
}

#[test]
fn counter_type_line_and_builder() {
    let b = MetricBuilder::new("x");
    assert!(b.is_timestamped());
    let b = b.without_timestamps();
    assert!(!b.is_timestamped());
    assert_eq!(Counter::type_str(), "counter");
    assert_eq!(Gauge::type_str(), "gauge");
    assert_eq!(IntGauge::type_str(), "gauge");
}

#[test]
fn int_gauge_aggregates() {
    let mut family = MetricBuilder::new("g")
        .without_timestamps()
        .build::<IntGauge, 4>();
    let m1 = family.register(labels(&[("n", "1")])).expect("must register");
    let _unset = family.register(labels(&[("n", "2")])).expect("must register");
    let m3 = family.register(labels(&[("n", "3")])).expect("must register");
    let m4 = family.register(labels(&[("n", "4")])).expect("must register");
    assert_eq!(family.min_value(), None);
    assert_eq!(family.max_value(), None);
    assert_eq!(family.mean(), None);
    family.metric_at_mut(m1).set_value(2, 0);
    family.metric_at_mut(m3).set_value(14, 0);
    family.metric_at_mut(m4).set_value(5, 0);
    // The never-recorded gauge counts toward none of these.
    assert_eq!(family.min_value(), Some(2));
    assert_eq!(family.max_value(), Some(14));
    assert_eq!(family.mean(), Some(7));
}
