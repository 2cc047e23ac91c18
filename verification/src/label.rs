//! Pairs of groups, and the labels attached to a sample.
use vstd::prelude::*;
use vstd::string::StringSliceAdditionalSpecFns;

verus! {

/// A label: its name and its value, as bytes.
pub type Label = (Seq<u8>, Seq<u8>);

/// Two groups joined into one: the first is visited, then the second.
pub struct ComposedGroup<A, B>(pub A, pub B);

/// One label of a sample: its name and its value.
pub struct LabelPair<'a> {
    pub name: &'a str,
    pub value: &'a str,
}

impl<'a> LabelPair<'a> {
    /// The label as bytes: its name, then its value.
    pub open spec fn pair(&self) -> Label {
        (self.name.spec_bytes(), self.value.spec_bytes())
    }
}

/// The bytes of each label in `labels`, in the same order.
pub open spec fn pairs_of(labels: Seq<LabelPair<'_>>) -> Seq<Label> {
    Seq::new(labels.len(), |i: int| labels[i].pair())
}

/// An ordered set of labels that can enumerate itself.
pub trait LabelGroup {
    /// The labels of the group, in the order of their declaration.
    spec fn pairs(&self) -> Seq<Label>;

    /// Appends the labels of the group to `out`, in the order of their
    /// declaration.
    fn visit_values<'a>(&'a self, out: &mut Vec<LabelPair<'a>>)
        ensures
            pairs_of(final(out)@) == pairs_of(old(out)@) + self.pairs(),
    ;
}

/// A single label is a group of one.
impl<'b> LabelGroup for LabelPair<'b> {
    open spec fn pairs(&self) -> Seq<Label> {
        seq![self.pair()]
    }

    fn visit_values<'a>(&'a self, out: &mut Vec<LabelPair<'a>>) {
        out.push(LabelPair { name: self.name, value: self.value });
        assert(pairs_of(out@) =~= pairs_of(old(out)@) + self.pairs());
    }
}

/// The group without labels.
pub struct NoLabels;

impl LabelGroup for NoLabels {
    open spec fn pairs(&self) -> Seq<Label> {
        Seq::empty()
    }

    fn visit_values<'a>(&'a self, out: &mut Vec<LabelPair<'a>>)
        ensures
            final(out)@ == old(out)@,
    {
        assert(pairs_of(out@) =~= pairs_of(out@) + self.pairs());
    }
}

impl<A: LabelGroup, B: LabelGroup> LabelGroup for ComposedGroup<A, B> {
    open spec fn pairs(&self) -> Seq<Label> {
        self.0.pairs() + self.1.pairs()
    }

    fn visit_values<'a>(&'a self, out: &mut Vec<LabelPair<'a>>) {
        self.0.visit_values(out);
        self.1.visit_values(out);
        assert(pairs_of(out@) =~= pairs_of(old(out)@) + self.pairs());
    }
}

} // verus!
