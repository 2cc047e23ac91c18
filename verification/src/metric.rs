//! Metrics, their names, and the groups that hold them.
use vstd::prelude::*;
use vstd::string::StringSliceAdditionalSpecFns;
use crate::label::{Label, LabelGroup, NoLabels};
use crate::metric::group::{name_prefix, with_prefix, Encoding, Entry, MetricGroup};
use crate::metric::name::{MetricName, MetricNameEncoder};

pub mod counter;
pub mod group;
pub mod name;

verus! {

/// One value of a metric, with the labels it is reported under.
pub struct Sample {
    pub labels: Seq<Label>,
    pub value: u64,
}

/// The entries that report `samples` under `name`, one for each, in order.
pub open spec fn sample_entries(name: Seq<u8>, samples: Seq<Sample>) -> Seq<Entry> {
    Seq::new(
        samples.len(),
        |i: int| Entry::Sample { name, labels: samples[i].labels, value: samples[i].value },
    )
}

/// What a metric is, whatever it is written into.
pub trait MetricType {
    /// What the metric needs besides its own state to report its values.
    type Metadata;

    /// The name of the kind of metric, as a type declaration gives it.
    spec fn kind() -> Seq<u8>;

    /// The current values of the metric, one for each combination of labels it
    /// tracks, each under `labels` followed by the labels of its own.
    spec fn samples(&self, metadata: &Self::Metadata, labels: Seq<Label>) -> Seq<Sample>;
}

/// A metric that can write itself into targets of type `E`.
pub trait MetricEncoding<E: Encoding>: MetricType {
    /// Writes the type declaration of a metric of this kind called `name`.
    fn write_type<N: MetricNameEncoder>(name: N, enc: &mut E)
        ensures
            (*final(enc)).namespaces() == (*old(enc)).namespaces(),
            (*final(enc)).written() == (*old(enc)).written().push(
                Entry::Type {
                    name: name_prefix((*old(enc)).namespaces()) + name.text(),
                    kind: Self::kind(),
                },
            ),
    ;

    /// Writes the current values of the metric under `name`.
    fn collect_into<L: LabelGroup, N: MetricNameEncoder>(
        &self,
        metadata: &Self::Metadata,
        labels: L,
        name: N,
        enc: &mut E,
    )
        ensures
            (*final(enc)).namespaces() == (*old(enc)).namespaces(),
            (*final(enc)).written() == (*old(enc)).written() + sample_entries(
                name_prefix((*old(enc)).namespaces()) + name.text(),
                self.samples(metadata, labels.pairs()),
            ),
    ;
}

/// A single metric as a group of its own: the metric with its name, its help
/// text and what it needs to report its values.
pub struct Leaf<M: MetricType> {
    pub name: &'static str,
    pub help: &'static str,
    pub metadata: M::Metadata,
    pub metric: M,
}

impl<M: MetricType> Leaf<M> {
    /// The name of the metric below `prefix`.
    pub open spec fn full_name(&self, prefix: Seq<u8>) -> Seq<u8> {
        prefix + self.name.spec_bytes()
    }

    /// The two entries that open the metric's block: its help text, then its
    /// type declaration.
    pub open spec fn header(&self, prefix: Seq<u8>) -> Seq<Entry> {
        seq![
            Entry::Help { name: self.full_name(prefix), help: self.help.spec_bytes() },
            Entry::Type { name: self.full_name(prefix), kind: M::kind() },
        ]
    }

    /// The current values of the metric, with no labels but its own.
    pub open spec fn values(&self) -> Seq<Sample> {
        self.metric.samples(&self.metadata, Seq::empty())
    }
}

impl<M: MetricEncoding<E>, E: Encoding> MetricGroup<E> for Leaf<M> {
    open spec fn rendered(&self, prefix: Seq<u8>) -> Seq<Entry> {
        self.header(prefix) + sample_entries(self.full_name(prefix), self.values())
    }

    proof fn lemma_prefix_reaches_names_only(&self, prefix: Seq<u8>) {
        let name = self.name.spec_bytes();
        assert(prefix + (Seq::<u8>::empty() + name) =~= prefix + name);
        assert(self.rendered(prefix) =~= with_prefix(prefix, self.rendered(Seq::empty())));
    }

    fn collect_into(&self, enc: &mut E) {
        enc.write_help(MetricName { name: self.name }, self.help);
        M::write_type(MetricName { name: self.name }, enc);
        self.metric.collect_into(&self.metadata, NoLabels, MetricName { name: self.name }, enc);
        assert(enc.written() =~= old(enc).written() + self.rendered(
            name_prefix(old(enc).namespaces()),
        ));
    }
}

/// A metric that tracks any number of label combinations is declared once:
/// its block holds one help entry, then one type entry, then one sample for
/// each combination, all under the same name.
pub proof fn lemma_leaf_declared_once<M: MetricEncoding<E>, E: Encoding>(
    leaf: Leaf<M>,
    prefix: Seq<u8>,
)
    ensures
        ({
            let block = <Leaf<M> as MetricGroup<E>>::rendered(&leaf, prefix);
            let name = leaf.full_name(prefix);
            &&& block.len() == 2 + leaf.values().len()
            &&& block[0] == (Entry::Help { name, help: leaf.help.spec_bytes() })
            &&& block[1] == (Entry::Type { name, kind: M::kind() })
            &&& forall|i: int|
                0 <= i < leaf.values().len() ==> #[trigger] block[2 + i] == (Entry::Sample {
                    name,
                    labels: leaf.values()[i].labels,
                    value: leaf.values()[i].value,
                })
        }),
{
}

} // verus!
