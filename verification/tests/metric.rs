use measured::label::{ComposedGroup, LabelPair, NoLabels};
use measured::metric::counter::{Counter, CounterVec, Series};
use measured::metric::name::{MetricName, WithNamespace};
use measured::metric::MetricEncoding;
use measured::text::TextEncoder;

#[test]
fn outer_labels_come_before_own_labels() {
    let vec = CounterVec {
        series: vec![
            Series { labels: vec![LabelPair { name: "code", value: "200" }], value: 11 },
            Series { labels: Vec::new(), value: 12 },
        ],
    };
    let outer = ComposedGroup(
        LabelPair { name: "host", value: "a" },
        ComposedGroup(NoLabels, LabelPair { name: "zone", value: "z" }),
    );
    let mut enc = TextEncoder::new();
    vec.collect_into(&(), outer, MetricName { name: "req" }, &mut enc);
    assert_eq!(
        String::from_utf8(enc.finish()).unwrap(),
        "req{host=\"a\",zone=\"z\",code=\"200\"} 11\nreq{host=\"a\",zone=\"z\"} 12\n"
    );
}

#[test]
fn counter_sample_with_one_label() {
    let mut enc = TextEncoder::new();
    Counter { value: 3 }.collect_into(
        &(),
        LabelPair { name: "host", value: "a" },
        WithNamespace { namespace: "ns_", inner: MetricName { name: "req" } },
        &mut enc,
    );
    assert_eq!(String::from_utf8(enc.finish()).unwrap(), "ns_req{host=\"a\"} 3\n");
}

