//! The traversal protocol: targets, groups, and how they compose.
use vstd::prelude::*;
use vstd::string::StringSliceAdditionalSpecFns;
use crate::label::{ComposedGroup, Label, LabelGroup};
use crate::metric::{MetricEncoding, MetricType};
use crate::metric::name::{MetricNameEncoder, WithNamespace};

verus! {

/// One thing that a target has been handed.
pub enum Entry {
    /// The help text of the metric `name`.
    Help { name: Seq<u8>, help: Seq<u8> },
    /// The declaration that the metric `name` is of the given kind.
    Type { name: Seq<u8>, kind: Seq<u8> },
    /// One value of the metric `name`, for one combination of labels.
    Sample { name: Seq<u8>, labels: Seq<Label>, value: u64 },
}

impl Entry {
    /// The entry with `prefix` put in front of its name and nothing else
    /// changed.
    pub open spec fn under(self, prefix: Seq<u8>) -> Entry {
        match self {
            Entry::Help { name, help } => Entry::Help { name: prefix + name, help },
            Entry::Type { name, kind } => Entry::Type { name: prefix + name, kind },
            Entry::Sample { name, labels, value } => Entry::Sample {
                name: prefix + name,
                labels,
                value,
            },
        }
    }
}

/// The entries with `prefix` put in front of the name of each, in the same
/// order.
pub open spec fn with_prefix(prefix: Seq<u8>, entries: Seq<Entry>) -> Seq<Entry> {
    Seq::new(entries.len(), |i: int| entries[i].under(prefix))
}

/// Putting `inner` and then `outer` in front of a name is putting
/// `outer + inner` in front of it.
pub proof fn lemma_under_twice(entry: Entry, outer: Seq<u8>, inner: Seq<u8>)
    ensures
        entry.under(inner).under(outer) == entry.under(outer + inner),
{
    match entry {
        Entry::Help { name, help } => {
            assert(outer + (inner + name) =~= (outer + inner) + name);
        },
        Entry::Type { name, kind } => {
            assert(outer + (inner + name) =~= (outer + inner) + name);
        },
        Entry::Sample { name, labels, value } => {
            assert(outer + (inner + name) =~= (outer + inner) + name);
        },
    }
}

/// The bytes that a target puts in front of a name, given the namespaces it
/// applies, outermost first. They are joined as they stand: nothing is put
/// between them.
pub open spec fn name_prefix(namespaces: Seq<Seq<u8>>) -> Seq<u8>
    decreases namespaces.len(),
{
    if namespaces.len() == 0 {
        Seq::empty()
    } else {
        name_prefix(namespaces.drop_last()) + namespaces.last()
    }
}

/// Adding one more namespace inside the others appends its bytes to the prefix.
pub proof fn lemma_name_prefix_push(namespaces: Seq<Seq<u8>>, inner: Seq<u8>)
    ensures
        name_prefix(namespaces.push(inner)) == name_prefix(namespaces) + inner,
{
    assert(namespaces.push(inner).drop_last() =~= namespaces);
}

/// A target that metrics and groups write into.
pub trait Encoding {
    /// Everything that has reached the underlying sink so far, in order.
    spec fn written(&self) -> Seq<Entry>;

    /// The namespaces that this target applies to every name handed to it,
    /// outermost first.
    spec fn namespaces(&self) -> Seq<Seq<u8>>;

    /// Write the help text for a metric
    fn write_help<N: MetricNameEncoder>(&mut self, name: N, help: &str)
        ensures
            (*final(self)).namespaces() == (*old(self)).namespaces(),
            (*final(self)).written() == (*old(self)).written().push(
                Entry::Help {
                    name: name_prefix((*old(self)).namespaces()) + name.text(),
                    help: help.spec_bytes(),
                },
            ),
    ;
}

/// An exclusively borrowed target is a target: every call is handed on
/// unchanged, and the handle goes on borrowing the same target.
impl<E: Encoding> Encoding for &mut E {
    open spec fn written(&self) -> Seq<Entry> {
        (**self).written()
    }

    open spec fn namespaces(&self) -> Seq<Seq<u8>> {
        (**self).namespaces()
    }

    fn write_help<N: MetricNameEncoder>(&mut self, name: N, help: &str)
        ensures
            *final(*final(self)) == *final(*old(self)),
    {
        E::write_help(self, name, help);
    }
}

/// A group of metrics that can write every metric it holds into a target.
pub trait MetricGroup<Enc: Encoding> {
    /// What one pass over the group hands to a target that puts `prefix` in
    /// front of every name.
    spec fn rendered(&self, prefix: Seq<u8>) -> Seq<Entry>;

    /// A prefix reaches the names and nothing else: under `prefix` the group
    /// hands over what it hands over under no prefix, entry for entry, with
    /// `prefix` in front of each name.
    proof fn lemma_prefix_reaches_names_only(&self, prefix: Seq<u8>)
        ensures
            self.rendered(prefix) == with_prefix(prefix, self.rendered(Seq::empty())),
    ;

    /// Writes every metric of the group into `enc`, depth first.
    fn collect_into(&self, enc: &mut Enc)
        ensures
            (*final(enc)).namespaces() == (*old(enc)).namespaces(),
            (*final(enc)).written() == (*old(enc)).written() + self.rendered(
                name_prefix((*old(enc)).namespaces()),
            ),
    ;
}

/// A borrowed group is a group: it hands over what the group itself does.
impl<G, E> MetricGroup<E> for &G where G: MetricGroup<E>, E: Encoding {
    open spec fn rendered(&self, prefix: Seq<u8>) -> Seq<Entry> {
        (**self).rendered(prefix)
    }

    proof fn lemma_prefix_reaches_names_only(&self, prefix: Seq<u8>) {
        (**self).lemma_prefix_reaches_names_only(prefix);
    }

    fn collect_into(&self, enc: &mut E) {
        G::collect_into(self, enc);
    }
}

/// A pair of groups is a group: the first is written, then the second, into
/// the same target.
impl<A, B, E> MetricGroup<E> for ComposedGroup<A, B> where
    A: MetricGroup<E>,
    B: MetricGroup<E>,
    E: Encoding,
 {
    open spec fn rendered(&self, prefix: Seq<u8>) -> Seq<Entry> {
        self.0.rendered(prefix) + self.1.rendered(prefix)
    }

    proof fn lemma_prefix_reaches_names_only(&self, prefix: Seq<u8>) {
        self.0.lemma_prefix_reaches_names_only(prefix);
        self.1.lemma_prefix_reaches_names_only(prefix);
        assert(self.rendered(prefix) =~= with_prefix(prefix, self.rendered(Seq::empty())));
    }

    fn collect_into(&self, enc: &mut E) {
        self.0.collect_into(enc);
        self.1.collect_into(enc);
        assert(enc.written() =~= old(enc).written() + self.rendered(
            name_prefix(old(enc).namespaces()),
        ));
    }
}

/// A target under a namespace is a target: it hands every name on to the
/// target inside with the namespace in front of it.
impl<E: Encoding> Encoding for WithNamespace<E> {
    open spec fn written(&self) -> Seq<Entry> {
        self.inner.written()
    }

    open spec fn namespaces(&self) -> Seq<Seq<u8>> {
        self.inner.namespaces().push(self.namespace.spec_bytes())
    }

    fn write_help<N: MetricNameEncoder>(&mut self, name: N, help: &str) {
        proof {
            lemma_prefixed_name(self.inner.namespaces(), self.namespace.spec_bytes(), name.text());
        }
        self.inner.write_help(WithNamespace { namespace: self.namespace, inner: name }, help);
    }
}

/// A name under one more namespace carries the same bytes, whether the
/// namespace is counted with the target's prefix or with the name.
pub proof fn lemma_prefixed_name(namespaces: Seq<Seq<u8>>, inner: Seq<u8>, name: Seq<u8>)
    ensures
        name_prefix(namespaces.push(inner)) + name == name_prefix(namespaces) + (inner + name),
{
    lemma_name_prefix_push(namespaces, inner);
    assert((name_prefix(namespaces) + inner) + name =~= name_prefix(namespaces) + (inner + name));
}

/// A group under a namespace is a group: it writes the group inside into
/// the target put under that namespace.
impl<G, E> MetricGroup<E> for WithNamespace<G> where
    G: MetricGroup<WithNamespace<E>>,
    E: Encoding + Default,
 {
    open spec fn rendered(&self, prefix: Seq<u8>) -> Seq<Entry> {
        self.inner.rendered(prefix + self.namespace.spec_bytes())
    }

    proof fn lemma_prefix_reaches_names_only(&self, prefix: Seq<u8>) {
        let namespace = self.namespace.spec_bytes();
        let bare = self.inner.rendered(Seq::empty());
        self.inner.lemma_prefix_reaches_names_only(prefix + namespace);
        self.inner.lemma_prefix_reaches_names_only(Seq::empty() + namespace);
        assert(Seq::<u8>::empty() + namespace =~= namespace);
        assert forall|i: int| 0 <= i < bare.len() implies bare[i].under(prefix + namespace)
            == bare[i].under(namespace).under(prefix) by {
            lemma_under_twice(bare[i], prefix, namespace);
        }
        assert(self.rendered(prefix) =~= with_prefix(prefix, self.rendered(Seq::empty())));
    }

    /// The target is moved into the decorator for the length of the pass and
    /// moved back after it; a default target stands in its place meanwhile
    /// and is never written to.
    fn collect_into(&self, enc: &mut E) {
        let mut target = WithNamespace { namespace: self.namespace, inner: E::default() };
        core::mem::swap(enc, &mut target.inner);
        proof {
            lemma_name_prefix_push(old(enc).namespaces(), self.namespace.spec_bytes());
        }
        let ghost before = target.namespaces();
        self.inner.collect_into(&mut target);
        assert(target.namespaces().drop_last() =~= target.inner.namespaces());
        assert(before.drop_last() =~= old(enc).namespaces());
        core::mem::swap(enc, &mut target.inner);
    }
}

/// However three groups are paired up, a target is handed the same entries
/// in the same order.
pub proof fn lemma_composition_associative<A, B, C, E>(a: A, b: B, c: C, prefix: Seq<u8>) where
    A: MetricGroup<E>,
    B: MetricGroup<E>,
    C: MetricGroup<E>,
    E: Encoding,

    ensures
        <ComposedGroup<ComposedGroup<A, B>, C> as MetricGroup<E>>::rendered(
            &ComposedGroup(ComposedGroup(a, b), c),
            prefix,
        ) == <ComposedGroup<A, ComposedGroup<B, C>> as MetricGroup<E>>::rendered(
            &ComposedGroup(a, ComposedGroup(b, c)),
            prefix,
        ),
{
    let left = <A as MetricGroup<E>>::rendered(&a, prefix);
    let middle = <B as MetricGroup<E>>::rendered(&b, prefix);
    let right = <C as MetricGroup<E>>::rendered(&c, prefix);
    assert((left + middle) + right =~= left + (middle + right));
}

/// A pair of groups hands a target what the first group alone would, followed
/// by what the second alone would. A target that held nothing before the pass
/// holds exactly that after it.
pub proof fn lemma_composition_in_order<A, B, E>(a: A, b: B, before: E, after: E) where
    A: MetricGroup<E>,
    B: MetricGroup<E>,
    E: Encoding,

    requires
        before.written().len() == 0,
        after.namespaces() == before.namespaces(),
        after.written() == before.written() + <ComposedGroup<A, B> as MetricGroup<E>>::rendered(
            &ComposedGroup(a, b),
            name_prefix(before.namespaces()),
        ),
    ensures
        <ComposedGroup<A, B> as MetricGroup<E>>::rendered(
            &ComposedGroup(a, b),
            name_prefix(before.namespaces()),
        ) == <A as MetricGroup<E>>::rendered(&a, name_prefix(before.namespaces()))
            + <B as MetricGroup<E>>::rendered(&b, name_prefix(before.namespaces())),
        after.written() == <A as MetricGroup<E>>::rendered(&a, name_prefix(before.namespaces()))
            + <B as MetricGroup<E>>::rendered(&b, name_prefix(before.namespaces())),
{
    let pair = <ComposedGroup<A, B> as MetricGroup<E>>::rendered(
        &ComposedGroup(a, b),
        name_prefix(before.namespaces()),
    );
    assert(before.written() + pair =~= pair);
}

/// A group under a namespace hands a target what the group itself hands
/// over, entry for entry, with the namespace added to the prefix of every
/// name exactly once and nothing else changed.
pub proof fn lemma_namespace_transparent<G, E>(
    namespace: &'static str,
    group: G,
    prefix: Seq<u8>,
) where G: MetricGroup<WithNamespace<E>>, E: Encoding + Default
    ensures
        ({
            let spaced = <WithNamespace<G> as MetricGroup<E>>::rendered(
                &WithNamespace { namespace, inner: group },
                prefix,
            );
            let bare = <G as MetricGroup<WithNamespace<E>>>::rendered(&group, Seq::empty());
            &&& spaced == <G as MetricGroup<WithNamespace<E>>>::rendered(
                &group,
                prefix + namespace.spec_bytes(),
            )
            &&& spaced == with_prefix(prefix + namespace.spec_bytes(), bare)
            &&& <G as MetricGroup<WithNamespace<E>>>::rendered(&group, prefix) == with_prefix(
                prefix,
                bare,
            )
        }),
{
    <G as MetricGroup<WithNamespace<E>>>::lemma_prefix_reaches_names_only(
        &group,
        prefix + namespace.spec_bytes(),
    );
    <G as MetricGroup<WithNamespace<E>>>::lemma_prefix_reaches_names_only(&group, prefix);
}

/// Two namespaces, one inside the other, act as the single namespace made of
/// the outer one followed by the inner one: the group's entries come out with
/// that combined prefix in front of each name, and nothing else changed.
pub proof fn lemma_namespaces_combine<G, E>(
    outer: &'static str,
    inner: &'static str,
    group: G,
    prefix: Seq<u8>,
) where G: MetricGroup<WithNamespace<WithNamespace<E>>>, E: Encoding + Default
    ensures
        ({
            let nested = <WithNamespace<WithNamespace<G>> as MetricGroup<E>>::rendered(
                &WithNamespace {
                    namespace: outer,
                    inner: WithNamespace { namespace: inner, inner: group },
                },
                prefix,
            );
            let combined = prefix + (outer.spec_bytes() + inner.spec_bytes());
            &&& nested == <G as MetricGroup<WithNamespace<WithNamespace<E>>>>::rendered(
                &group,
                combined,
            )
            &&& nested == with_prefix(
                combined,
                <G as MetricGroup<WithNamespace<WithNamespace<E>>>>::rendered(
                    &group,
                    Seq::empty(),
                ),
            )
        }),
{
    let combined = prefix + (outer.spec_bytes() + inner.spec_bytes());
    assert((prefix + outer.spec_bytes()) + inner.spec_bytes() =~= combined);
    <G as MetricGroup<WithNamespace<WithNamespace<E>>>>::lemma_prefix_reaches_names_only(
        &group,
        combined,
    );
}

/// A borrowed group hands a target what the group itself would.
pub proof fn lemma_reference_transparent<G, E>(group: &G, prefix: Seq<u8>) where
    G: MetricGroup<E>,
    E: Encoding,

    ensures
        <&G as MetricGroup<E>>::rendered(&group, prefix) == <G as MetricGroup<E>>::rendered(
            group,
            prefix,
        ),
{
}

/// A metric that can be written into a target can be written into that
/// target under a namespace: the namespace goes in front of the name, once.
impl<M: MetricEncoding<E>, E: Encoding> MetricEncoding<WithNamespace<E>> for M {
    fn write_type<N: MetricNameEncoder>(name: N, enc: &mut WithNamespace<E>) {
        proof {
            lemma_prefixed_name(enc.inner.namespaces(), enc.namespace.spec_bytes(), name.text());
        }
        M::write_type(WithNamespace { namespace: enc.namespace, inner: name }, &mut enc.inner);
    }

    fn collect_into<L: LabelGroup, N: MetricNameEncoder>(
        &self,
        metadata: &M::Metadata,
        labels: L,
        name: N,
        enc: &mut WithNamespace<E>,
    ) {
        proof {
            lemma_prefixed_name(enc.inner.namespaces(), enc.namespace.spec_bytes(), name.text());
        }
        self.collect_into(
            metadata,
            labels,
            WithNamespace { namespace: enc.namespace, inner: name },
            &mut enc.inner,
        )
    }
}

/// A metric that can be written into a target can be written into a borrow
/// of it, unchanged, and the handle goes on borrowing the same target.
impl<'a, M: MetricEncoding<E>, E: Encoding> MetricEncoding<&'a mut E> for M {
    fn write_type<N: MetricNameEncoder>(name: N, enc: &mut &'a mut E)
        ensures
            *final(*final(enc)) == *final(*old(enc)),
    {
        M::write_type(name, *enc);
    }

    fn collect_into<L: LabelGroup, N: MetricNameEncoder>(
        &self,
        metadata: &M::Metadata,
        labels: L,
        name: N,
        enc: &mut &'a mut E,
    )
        ensures
            *final(*final(enc)) == *final(*old(enc)),
    {
        self.collect_into(metadata, labels, name, *enc)
    }
}

} // verus!
