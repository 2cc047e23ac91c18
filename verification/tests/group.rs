use measured::label::{ComposedGroup, LabelGroup, LabelPair, NoLabels};
use measured::metric::counter::{Counter, CounterVec, Series};
use measured::metric::group::{Encoding, MetricGroup};
use measured::metric::name::{MetricName, MetricNameEncoder, WithNamespace};
use measured::metric::Leaf;
use measured::text::TextEncoder;

const ROUTES: [&str; 6] = [
    "/api/v1/users",
    "/api/v1/users/:id",
    "/api/v1/products",
    "/api/v1/products/:id",
    "/api/v1/products/:id/owner",
    "/api/v1/products/:id/purchase",
];

const KINDS: [&str; 3] = ["user", "internal", "network"];

fn errors_by_kind_and_route() -> CounterVec {
    let mut series = Vec::new();
    for kind in KINDS {
        for route in ROUTES {
            series.push(Series {
                labels: vec![
                    LabelPair { name: "kind", value: kind },
                    LabelPair { name: "route", value: route },
                ],
                value: 0,
            });
        }
    }
    CounterVec { series }
}

fn counter(name: &'static str, help: &'static str, value: u64) -> Leaf<Counter> {
    Leaf { name, help, metadata: (), metric: Counter { value } }
}

fn render<G: MetricGroup<TextEncoder>>(group: G) -> String {
    let mut enc = TextEncoder::new();
    group.collect_into(&mut enc);
    String::from_utf8(enc.finish()).unwrap()
}

#[test]
fn http_errors() {
    let group = ComposedGroup(
        Leaf { name: "events_total", help: "help text", metadata: (), metric: Counter::new() },
        WithNamespace {
            namespace: "http_request_",
            inner: Leaf {
                name: "errors",
                help: "more help wow",
                metadata: (),
                metric: errors_by_kind_and_route(),
            },
        },
    );

    let mut text_encoder = TextEncoder::new();
    group.collect_into(&mut text_encoder);
    assert_eq!(
        String::from_utf8(text_encoder.finish()).unwrap(),
        r#"# HELP events_total help text
# TYPE events_total counter
events_total 0

# HELP http_request_errors more help wow
# TYPE http_request_errors counter
http_request_errors{kind="user",route="/api/v1/users"} 0
http_request_errors{kind="user",route="/api/v1/users/:id"} 0
http_request_errors{kind="user",route="/api/v1/products"} 0
http_request_errors{kind="user",route="/api/v1/products/:id"} 0
http_request_errors{kind="user",route="/api/v1/products/:id/owner"} 0
http_request_errors{kind="user",route="/api/v1/products/:id/purchase"} 0
http_request_errors{kind="internal",route="/api/v1/users"} 0
http_request_errors{kind="internal",route="/api/v1/users/:id"} 0
http_request_errors{kind="internal",route="/api/v1/products"} 0
http_request_errors{kind="internal",route="/api/v1/products/:id"} 0
http_request_errors{kind="internal",route="/api/v1/products/:id/owner"} 0
http_request_errors{kind="internal",route="/api/v1/products/:id/purchase"} 0
http_request_errors{kind="network",route="/api/v1/users"} 0
http_request_errors{kind="network",route="/api/v1/users/:id"} 0
http_request_errors{kind="network",route="/api/v1/products"} 0
http_request_errors{kind="network",route="/api/v1/products/:id"} 0
http_request_errors{kind="network",route="/api/v1/products/:id/owner"} 0
http_request_errors{kind="network",route="/api/v1/products/:id/purchase"} 0
"#
    );
}

#[test]
fn single_counter_block() {
    assert_eq!(
        render(counter("jobs", "jobs run", 42)),
        "# HELP jobs jobs run\n# TYPE jobs counter\njobs 42\n"
    );
}

#[test]
fn empty_target_renders_nothing() {
    let enc = TextEncoder::new();
    assert!(enc.is_empty());
    assert_eq!(enc.finish(), Vec::<u8>::new());
    assert_eq!(TextEncoder::default().finish(), Vec::<u8>::new());
}

#[test]
fn decimal_values() {
    for (value, digits) in [
        (0u64, "0"),
        (7, "7"),
        (9, "9"),
        (10, "10"),
        (99, "99"),
        (100, "100"),
        (1234567890, "1234567890"),
        (u64::MAX, "18446744073709551615"),
    ] {
        assert_eq!(
            render(counter("n", "h", value)),
            format!("# HELP n h\n# TYPE n counter\nn {}\n", digits)
        );
    }
}

#[test]
fn composition_is_left_then_right() {
    let both = render(ComposedGroup(counter("a", "first", 1), counter("b", "second", 2)));
    assert_eq!(
        both,
        "# HELP a first\n# TYPE a counter\na 1\n\n# HELP b second\n# TYPE b counter\nb 2\n"
    );
    let swapped = render(ComposedGroup(counter("b", "second", 2), counter("a", "first", 1)));
    assert_eq!(
        swapped,
        "# HELP b second\n# TYPE b counter\nb 2\n\n# HELP a first\n# TYPE a counter\na 1\n"
    );
}

#[test]
fn composition_equals_one_pass_after_the_other() {
    let pair = render(ComposedGroup(counter("a", "first", 1), counter("b", "second", 2)));
    let mut enc = TextEncoder::new();
    counter("a", "first", 1).collect_into(&mut enc);
    counter("b", "second", 2).collect_into(&mut enc);
    assert_eq!(pair, String::from_utf8(enc.finish()).unwrap());
}

#[test]
fn blocks_are_separated_by_one_empty_line() {
    let a = render(counter("a", "first", 1));
    let b = render(counter("b", "second", 2));
    let pair = render(ComposedGroup(counter("a", "first", 1), counter("b", "second", 2)));
    assert_eq!(pair, format!("{}\n{}", a, b));
}

#[test]
fn composition_is_associative() {
    let left = render(ComposedGroup(
        ComposedGroup(counter("a", "ha", 1), counter("b", "hb", 2)),
        counter("c", "hc", 3),
    ));
    let right = render(ComposedGroup(
        counter("a", "ha", 1),
        ComposedGroup(counter("b", "hb", 2), counter("c", "hc", 3)),
    ));
    assert_eq!(left, right);
    assert_eq!(
        left,
        "# HELP a ha\n# TYPE a counter\na 1\n\n# HELP b hb\n# TYPE b counter\nb 2\n\n# HELP c hc\n# TYPE c counter\nc 3\n"
    );
}

#[test]
fn namespace_prefixes_every_name_once() {
    let plain = render(counter("hits", "page hits", 5));
    let spaced = render(WithNamespace { namespace: "web_", inner: counter("hits", "page hits", 5) });
    assert_eq!(plain, "# HELP hits page hits\n# TYPE hits counter\nhits 5\n");
    assert_eq!(spaced, "# HELP web_hits page hits\n# TYPE web_hits counter\nweb_hits 5\n");
}

#[test]
fn namespace_adds_no_separator() {
    let spaced = render(WithNamespace { namespace: "web", inner: counter("hits", "h", 5) });
    assert_eq!(spaced, "# HELP webhits h\n# TYPE webhits counter\nwebhits 5\n");
}

#[test]
fn nested_namespaces_combine_outer_first() {
    let nested = render(WithNamespace {
        namespace: "a_",
        inner: WithNamespace { namespace: "b_", inner: counter("m", "help", 3) },
    });
    let combined = render(WithNamespace { namespace: "a_b_", inner: counter("m", "help", 3) });
    assert_eq!(nested, combined);
    assert_eq!(nested, "# HELP a_b_m help\n# TYPE a_b_m counter\na_b_m 3\n");
}

#[test]
fn namespace_covers_a_whole_subtree() {
    let tree = render(ComposedGroup(
        counter("up", "is up", 1),
        WithNamespace {
            namespace: "db_",
            inner: ComposedGroup(counter("reads", "r", 2), counter("writes", "w", 3)),
        },
    ));
    assert_eq!(
        tree,
        "# HELP up is up\n# TYPE up counter\nup 1\n\n# HELP db_reads r\n# TYPE db_reads counter\ndb_reads 2\n\n# HELP db_writes w\n# TYPE db_writes counter\ndb_writes 3\n"
    );
}

#[test]
fn borrowed_group_renders_as_owned() {
    let group = ComposedGroup(counter("a", "ha", 1), counter("b", "hb", 2));
    let by_reference = render(&group);
    let twice_borrowed = render(&&group);
    let by_value = render(group);
    assert_eq!(by_reference, by_value);
    assert_eq!(twice_borrowed, by_value);
}

#[test]
fn repeated_passes_give_the_same_text() {
    let group = ComposedGroup(counter("a", "ha", 1), counter("b", "hb", 2));
    assert_eq!(render(&group), render(&group));
}

#[test]
fn borrowed_target_receives_the_pass() {
    let group = counter("a", "ha", 1);
    let mut enc = TextEncoder::new();
    {
        let mut handle = &mut enc;
        group.collect_into(&mut handle);
    }
    assert_eq!(
        String::from_utf8(enc.finish()).unwrap(),
        "# HELP a ha\n# TYPE a counter\na 1\n"
    );
}

#[test]
fn namespaced_target_behind_a_borrow() {
    let group = counter("a", "ha", 1);
    let mut enc = TextEncoder::new();
    {
        let mut target = WithNamespace { namespace: "ns_", inner: &mut enc };
        group.collect_into(&mut target);
    }
    let mut other = TextEncoder::new();
    {
        let mut spaced = WithNamespace { namespace: "ns_", inner: TextEncoder::new() };
        {
            let mut handle = &mut spaced;
            group.collect_into(&mut handle);
        }
        std::mem::swap(&mut other, &mut spaced.inner);
    }
    let expected = "# HELP ns_a ha\n# TYPE ns_a counter\nns_a 1\n";
    assert_eq!(String::from_utf8(enc.finish()).unwrap(), expected);
    assert_eq!(String::from_utf8(other.finish()).unwrap(), expected);
}

#[test]
fn namespaced_target_rewrites_help_names() {
    let mut target = WithNamespace { namespace: "x_", inner: TextEncoder::new() };
    target.write_help(MetricName { name: "m" }, "about m");
    {
        let mut handle = &mut target;
        Encoding::write_help(&mut handle, MetricName { name: "n" }, "about n");
    }
    assert_eq!(
        String::from_utf8(target.inner.finish()).unwrap(),
        "# HELP x_m about m\n\n# HELP x_n about n\n"
    );
}

#[test]
fn type_line_through_wrappers() {
    let mut enc = TextEncoder::new();
    <Counter as measured::metric::MetricEncoding<TextEncoder>>::write_type(MetricName { name: "m" }, &mut enc);
    {
        let mut handle = &mut enc;
        <Counter as measured::metric::MetricEncoding<&mut TextEncoder>>::write_type(
            MetricName { name: "n" },
            &mut handle,
        );
    }
    let mut target = WithNamespace { namespace: "p_", inner: enc };
    <CounterVec as measured::metric::MetricEncoding<WithNamespace<TextEncoder>>>::write_type(
        MetricName { name: "o" },
        &mut target,
    );
    assert_eq!(
        String::from_utf8(target.inner.finish()).unwrap(),
        "# TYPE m counter\n# TYPE n counter\n# TYPE p_o counter\n"
    );
}

#[test]
fn labelled_metric_is_declared_once() {
    let text = render(Leaf {
        name: "errors",
        help: "errors seen",
        metadata: (),
        metric: errors_by_kind_and_route(),
    });
    let lines: Vec<&str> = text.lines().collect();
    assert_eq!(lines.iter().filter(|l| l.starts_with("# HELP ")).count(), 1);
    assert_eq!(lines.iter().filter(|l| l.starts_with("# TYPE ")).count(), 1);
    assert_eq!(lines.len(), 2 + 18);
    assert_eq!(lines[0], "# HELP errors errors seen");
    assert_eq!(lines[1], "# TYPE errors counter");
    assert!(lines[2..].iter().all(|l| l.starts_with("errors{kind=\"")));
    assert_eq!(lines[2], "errors{kind=\"user\",route=\"/api/v1/users\"} 0");
    assert_eq!(lines[19], "errors{kind=\"network\",route=\"/api/v1/products/:id/purchase\"} 0");
}

#[test]
fn labelled_metric_without_series_has_only_its_header() {
    let text = render(Leaf {
        name: "errors",
        help: "none yet",
        metadata: (),
        metric: CounterVec { series: Vec::new() },
    });
    assert_eq!(text, "# HELP errors none yet\n# TYPE errors counter\n");
}

#[test]
fn names_encode_outer_namespace_first() {
    let mut out = b"> ".to_vec();
    MetricName { name: "m" }.encode_text(&mut out);
    assert_eq!(out, b"> m".to_vec());
    let mut out = Vec::new();
    WithNamespace {
        namespace: "a_",
        inner: WithNamespace { namespace: "b_", inner: MetricName { name: "m" } },
    }
    .encode_text(&mut out);
    assert_eq!(out, b"a_b_m".to_vec());
}

#[test]
fn label_groups_enumerate_in_order() {
    let group = ComposedGroup(
        LabelPair { name: "k1", value: "v1" },
        LabelPair { name: "k2", value: "v2" },
    );
    let mut out = vec![LabelPair { name: "k0", value: "v0" }];
    group.visit_values(&mut out);
    NoLabels.visit_values(&mut out);
    let seen: Vec<(&str, &str)> = out.iter().map(|p| (p.name, p.value)).collect();
    assert_eq!(seen, vec![("k0", "v0"), ("k1", "v1"), ("k2", "v2")]);
}

#[test]
fn default_namespace_is_empty() {
    let target: WithNamespace<TextEncoder> = Default::default();
    assert_eq!(target.namespace, "");
    assert!(target.inner.is_empty());
}

#[test]
fn new_counter_starts_at_zero() {
    assert_eq!(Counter::new().value, 0);
}
