//! Counters: one alone, and one for each of several label combinations.
use vstd::prelude::*;
use vstd::string::StringSliceAdditionalSpecFns;
use crate::label::{pairs_of, Label, LabelGroup, LabelPair};
use crate::metric::name::MetricNameEncoder;
use crate::metric::{sample_entries, MetricEncoding, MetricType, Sample};
use crate::text::TextEncoder;

verus! {

/// A count of events.
pub struct Counter {
    pub value: u64,
}

impl Counter {
    /// A counter that has counted nothing.
    pub fn new() -> (counter: Self)
        ensures
            counter.value == 0,
    {
        Counter { value: 0 }
    }
}

impl MetricType for Counter {
    type Metadata = ();

    open spec fn kind() -> Seq<u8> {
        "counter".spec_bytes()
    }

    /// The one value of the counter, under the labels it is given.
    open spec fn samples(&self, metadata: &(), labels: Seq<Label>) -> Seq<Sample> {
        seq![Sample { labels, value: self.value }]
    }
}

impl MetricEncoding<TextEncoder> for Counter {
    fn write_type<N: MetricNameEncoder>(name: N, enc: &mut TextEncoder) {
        assert(Seq::<u8>::empty() + name.text() =~= name.text());
        enc.write_type(&name, "counter");
    }

    fn collect_into<L: LabelGroup, N: MetricNameEncoder>(
        &self,
        metadata: &(),
        labels: L,
        name: N,
        enc: &mut TextEncoder,
    ) {
        let mut pairs: Vec<LabelPair<'_>> = Vec::new();
        labels.visit_values(&mut pairs);
        assert(pairs_of(pairs@) =~= labels.pairs());
        assert(Seq::<u8>::empty() + name.text() =~= name.text());
        enc.write_sample(&name, &pairs, self.value);
        assert(enc@ =~= old(enc)@ + sample_entries(
            name.text(),
            self.samples(metadata, labels.pairs()),
        ));
    }
}

/// The count kept for one combination of label values.
pub struct Series {
    pub labels: Vec<LabelPair<'static>>,
    pub value: u64,
}

/// A counter for each of several combinations of label values, in a fixed
/// order.
pub struct CounterVec {
    pub series: Vec<Series>,
}

impl MetricType for CounterVec {
    type Metadata = ();

    open spec fn kind() -> Seq<u8> {
        "counter".spec_bytes()
    }

    /// One value for each combination, in the order of the series, each under
    /// the labels given followed by those of the combination.
    open spec fn samples(&self, metadata: &(), labels: Seq<Label>) -> Seq<Sample> {
        Seq::new(
            self.series@.len(),
            |i: int|
                Sample {
                    labels: labels + pairs_of(self.series@[i].labels@),
                    value: self.series@[i].value,
                },
        )
    }
}

impl MetricEncoding<TextEncoder> for CounterVec {
    fn write_type<N: MetricNameEncoder>(name: N, enc: &mut TextEncoder) {
        assert(Seq::<u8>::empty() + name.text() =~= name.text());
        enc.write_type(&name, "counter");
    }

    fn collect_into<L: LabelGroup, N: MetricNameEncoder>(
        &self,
        metadata: &(),
        labels: L,
        name: N,
        enc: &mut TextEncoder,
    ) {
        let ghost all = self.samples(metadata, labels.pairs());
        assert(Seq::<u8>::empty() + name.text() =~= name.text());
        let mut i: usize = 0;
        while i < self.series.len()
            invariant
                i <= self.series.len(),
                all == self.samples(metadata, labels.pairs()),
                enc@ == old(enc)@ + sample_entries(name.text(), all.take(i as int)),
            decreases self.series.len() - i,
        {
            let own = &self.series[i].labels;
            let mut pairs: Vec<LabelPair<'_>> = Vec::new();
            labels.visit_values(&mut pairs);
            assert(pairs_of(pairs@) =~= labels.pairs());
            let mut j: usize = 0;
            while j < own.len()
                invariant
                    j <= own.len(),
                    pairs_of(pairs@) == labels.pairs() + pairs_of(own@.take(j as int)),
                decreases own.len() - j,
            {
                let ghost before = pairs@;
                pairs.push(LabelPair { name: own[j].name, value: own[j].value });
                proof {
                    let added = own@[j as int].pair();
                    assert(pairs_of(pairs@) =~= pairs_of(before).push(added));
                    assert(pairs_of(own@.take(j + 1)) =~= pairs_of(own@.take(j as int)).push(
                        added,
                    ));
                    assert(pairs_of(pairs@) =~= labels.pairs() + pairs_of(own@.take(j + 1)));
                }
                j += 1;
            }
            assert(own@.take(j as int) =~= own@);
            enc.write_sample(&name, &pairs, self.series[i].value);
            assert(enc@ =~= old(enc)@ + sample_entries(name.text(), all.take(i + 1)));
            i += 1;
        }
        assert(all.take(i as int) =~= all);
    }
}

} // verus!
