//! Metric names and the namespace decorator.
use vstd::prelude::*;
use vstd::string::StringSliceAdditionalSpecFns;

verus! {

/// A name that can write itself out as bytes.
pub trait MetricNameEncoder {
    /// The bytes of the complete name.
    spec fn text(&self) -> Seq<u8>;

    /// Appends the complete name to `out`.
    fn encode_text(&self, out: &mut Vec<u8>)
        ensures
            final(out)@ == old(out)@ + self.text(),
    ;
}

/// A plain metric name, written as it stands.
pub struct MetricName<'a> {
    pub name: &'a str,
}

impl<'a> MetricNameEncoder for MetricName<'a> {
    open spec fn text(&self) -> Seq<u8> {
        self.name.spec_bytes()
    }

    fn encode_text(&self, out: &mut Vec<u8>) {
        out.extend_from_slice(self.name.as_bytes());
        assert(out@ =~= old(out)@ + self.text());
    }
}

/// A prefix placed in front of whatever `inner` names: a name, a group or an
/// encoding target.
pub struct WithNamespace<T> {
    pub namespace: &'static str,
    pub inner: T,
}

impl<T: Default> Default for WithNamespace<T> {
    /// The empty namespace around the default of `T`.
    fn default() -> (r: Self)
        ensures
            r.namespace == "",
    {
        WithNamespace { namespace: "", inner: T::default() }
    }
}

impl<N: MetricNameEncoder> MetricNameEncoder for WithNamespace<N> {
    open spec fn text(&self) -> Seq<u8> {
        self.namespace.spec_bytes() + self.inner.text()
    }

    fn encode_text(&self, out: &mut Vec<u8>) {
        out.extend_from_slice(self.namespace.as_bytes());
        assert(out@ =~= old(out)@ + self.namespace.spec_bytes());
        self.inner.encode_text(out);
        assert(out@ =~= old(out)@ + self.text());
    }
}

} // verus!
