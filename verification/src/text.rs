//! The text exposition format: a target that renders it, and counters that
//! write themselves into that target.
use vstd::prelude::*;
use vstd::string::StringSliceAdditionalSpecFns;
use crate::label::{pairs_of, ComposedGroup, Label, LabelPair};
use crate::metric::group::{Encoding, Entry, MetricGroup};
use crate::metric::name::MetricNameEncoder;

verus! {

/// The byte of the decimal digit `d`.
pub open spec fn digit(d: nat) -> u8
    recommends
        d < 10,
{
    (48 + d) as u8
}

/// The decimal digits of `n`, without leading zeros.
pub open spec fn decimal(n: nat) -> Seq<u8>
    decreases n,
{
    if n < 10 {
        seq![digit(n)]
    } else {
        decimal(n / 10).push(digit(n % 10))
    }
}

/// One label as it stands between the braces: `name="value"`.
pub open spec fn label_text(label: Label) -> Seq<u8> {
    label.0 + "=\"".spec_bytes() + label.1 + "\"".spec_bytes()
}

/// The labels as they stand between the braces, in order, with a comma
/// between two of them.
pub open spec fn label_list(labels: Seq<Label>) -> Seq<u8>
    decreases labels.len(),
{
    if labels.len() == 0 {
        Seq::empty()
    } else if labels.len() == 1 {
        label_text(labels[0])
    } else {
        label_list(labels.drop_last()) + ",".spec_bytes() + label_text(labels.last())
    }
}

/// The labels of a sample as they follow its name: nothing where there are
/// none, else the list in braces.
pub open spec fn label_block(labels: Seq<Label>) -> Seq<u8> {
    if labels.len() == 0 {
        Seq::empty()
    } else {
        "{".spec_bytes() + label_list(labels) + "}".spec_bytes()
    }
}

/// The text of one entry. A help entry opens the block of a metric: unless
/// it is the first entry of all, an empty line comes before it.
pub open spec fn entry_text(first: bool, entry: Entry) -> Seq<u8> {
    match entry {
        Entry::Help { name, help } => {
            let gap = if first {
                Seq::empty()
            } else {
                "\n".spec_bytes()
            };
            gap + "# HELP ".spec_bytes() + name + " ".spec_bytes() + help + "\n".spec_bytes()
        },
        Entry::Type { name, kind } => {
            "# TYPE ".spec_bytes() + name + " ".spec_bytes() + kind + "\n".spec_bytes()
        },
        Entry::Sample { name, labels, value } => {
            name + label_block(labels) + " ".spec_bytes() + decimal(value as nat)
                + "\n".spec_bytes()
        },
    }
}

/// The exposition text of a sequence of entries.
pub open spec fn exposition(entries: Seq<Entry>) -> Seq<u8>
    decreases entries.len(),
{
    if entries.len() == 0 {
        Seq::empty()
    } else {
        exposition(entries.drop_last()) + entry_text(entries.len() == 1, entries.last())
    }
}

/// One more entry adds its own text to the exposition and changes nothing of
/// what stood there.
pub proof fn lemma_exposition_push(entries: Seq<Entry>, entry: Entry)
    ensures
        exposition(entries.push(entry)) == exposition(entries) + entry_text(
            entries.len() == 0,
            entry,
        ),
{
    assert(entries.push(entry).drop_last() =~= entries);
}

/// What stands between the text of `before` and the text of `after` when the
/// two are written one after the other: an empty line where `after` opens
/// with the block of a metric and `before` holds something, else nothing.
pub open spec fn gap_between(before: Seq<Entry>, after: Seq<Entry>) -> Seq<u8> {
    if before.len() > 0 && after.len() > 0 && after[0] is Help {
        "\n".spec_bytes()
    } else {
        Seq::empty()
    }
}

/// The text of two sequences of entries, one after the other, is the text of
/// the first, then the gap between them, then the text of the second.
pub proof fn lemma_exposition_concat(before: Seq<Entry>, after: Seq<Entry>)
    ensures
        exposition(before + after) == exposition(before) + gap_between(before, after)
            + exposition(after),
    decreases after.len(),
{
    let gap = gap_between(before, after);
    if after.len() == 0 {
        assert(before + after =~= before);
        assert(exposition(before) + gap + exposition(after) =~= exposition(before));
    } else {
        let front = after.drop_last();
        let last = after.last();
        lemma_exposition_concat(before, front);
        assert((before + after).drop_last() =~= before + front);
        assert((before + after).last() == last);
        if front.len() == 0 {
            assert(before + front =~= before);
            assert(exposition(front) =~= Seq::<u8>::empty());
            assert(after[0] == last);
            if before.len() == 0 {
                assert(exposition(before + after) =~= exposition(before) + gap + exposition(
                    after,
                ));
            } else {
                match last {
                    Entry::Help { name, help } => {
                        assert(entry_text(false, last) =~= "\n".spec_bytes() + entry_text(
                            true,
                            last,
                        ));
                    },
                    _ => {},
                }
                assert(exposition(before + after) =~= exposition(before) + gap + exposition(
                    after,
                ));
            }
        } else {
            assert(gap_between(before, front) == gap) by {
                assert(front[0] == after[0]);
            }
            assert(exposition(before + after) =~= exposition(before) + gap + exposition(after));
        }
    }
}

/// The text of a pair of groups is the text of the first group, then the gap
/// between the two, then the text of the second group.
pub proof fn lemma_pair_text<A, B>(a: A, b: B, prefix: Seq<u8>) where
    A: MetricGroup<TextEncoder>,
    B: MetricGroup<TextEncoder>,

    ensures
        exposition(ComposedGroup(a, b).rendered(prefix)) == exposition(a.rendered(prefix))
            + gap_between(a.rendered(prefix), b.rendered(prefix)) + exposition(
            b.rendered(prefix),
        ),
{
    lemma_exposition_concat(a.rendered(prefix), b.rendered(prefix));
}

/// Appends the bytes of `text` to `buf`.
fn put(buf: &mut Vec<u8>, text: &str)
    ensures
        final(buf)@ == old(buf)@ + text.spec_bytes(),
{
    buf.extend_from_slice(text.as_bytes());
    assert(buf@ =~= old(buf)@ + text.spec_bytes());
}

/// Appends the decimal digits of `n` to `buf`.
fn put_decimal(buf: &mut Vec<u8>, n: u64)
    ensures
        final(buf)@ == old(buf)@ + decimal(n as nat),
    decreases n,
{
    if n >= 10 {
        put_decimal(buf, n / 10);
    }
    let d: u8 = (n % 10) as u8;
    buf.push(48 + d);
    assert(buf@ =~= old(buf)@ + decimal(n as nat));
}

/// Appends the labels of a sample to `buf`, as they follow its name.
fn put_labels(buf: &mut Vec<u8>, labels: &Vec<LabelPair<'_>>)
    ensures
        final(buf)@ == old(buf)@ + label_block(pairs_of(labels@)),
{
    let ghost all = pairs_of(labels@);
    if labels.len() == 0 {
        assert(buf@ =~= old(buf)@ + label_block(all));
        return ;
    }
    put(buf, "{");
    let ghost opened = buf@;
    let mut i: usize = 0;
    while i < labels.len()
        invariant
            i <= labels.len(),
            all == pairs_of(labels@),
            buf@ == opened + label_list(all.take(i as int)),
        decreases labels.len() - i,
    {
        if i > 0 {
            put(buf, ",");
        }
        put(buf, labels[i].name);
        put(buf, "=\"");
        put(buf, labels[i].value);
        put(buf, "\"");
        proof {
            let next = all.take(i + 1);
            assert(next.drop_last() =~= all.take(i as int));
            assert(next.last() == labels@[i as int].pair());
            assert(buf@ =~= opened + label_list(next));
        }
        i += 1;
    }
    proof {
        assert(all.take(i as int) =~= all);
    }
    put(buf, "}");
    assert(buf@ =~= old(buf)@ + label_block(all));
}

/// A target that renders what it is handed in the text exposition format.
pub struct TextEncoder {
    buf: Vec<u8>,
    started: bool,
    entries: Ghost<Seq<Entry>>,
}

impl View for TextEncoder {
    type V = Seq<Entry>;

    /// Everything written so far, in order.
    closed spec fn view(&self) -> Seq<Entry> {
        self.entries@
    }
}

impl TextEncoder {
    #[verifier::type_invariant]
    spec fn consistent(&self) -> bool {
        &&& self.buf@ == exposition(self.entries@)
        &&& self.started == (self.entries@.len() > 0)
    }

    /// A target that holds nothing yet.
    pub fn new() -> (enc: Self)
        ensures
            enc@ == Seq::<Entry>::empty(),
    {
        TextEncoder { buf: Vec::new(), started: false, entries: Ghost(Seq::empty()) }
    }

    /// Whether nothing has been written yet.
    pub fn is_empty(&self) -> (empty: bool)
        ensures
            empty == (self@.len() == 0),
    {
        proof {
            use_type_invariant(self);
        }
        !self.started
    }

    /// Takes `line`, the text of `entry` at this place, to the end of the
    /// output.
    fn append(&mut self, line: Vec<u8>, Ghost(entry): Ghost<Entry>)
        requires
            line@ == entry_text(old(self)@.len() == 0, entry),
        ensures
            final(self)@ == old(self)@.push(entry),
    {
        let mut line = line;
        let mut taken = TextEncoder::new();
        core::mem::swap(self, &mut taken);
        proof {
            use_type_invariant(&taken);
            lemma_exposition_push(taken.entries@, entry);
        }
        let ghost entries = taken.entries@.push(entry);
        let mut buf = taken.buf;
        buf.append(&mut line);
        *self = TextEncoder { buf, started: true, entries: Ghost(entries) };
    }

    /// Writes the declaration that the metric `name` is of kind `kind`.
    pub fn write_type<N: MetricNameEncoder>(&mut self, name: &N, kind: &str)
        ensures
            final(self)@ == old(self)@.push(
                Entry::Type { name: name.text(), kind: kind.spec_bytes() },
            ),
    {
        let mut line: Vec<u8> = Vec::new();
        put(&mut line, "# TYPE ");
        name.encode_text(&mut line);
        put(&mut line, " ");
        put(&mut line, kind);
        put(&mut line, "\n");
        assert(line@ =~= "# TYPE ".spec_bytes() + name.text() + " ".spec_bytes()
            + kind.spec_bytes() + "\n".spec_bytes());
        self.append(line, Ghost(Entry::Type { name: name.text(), kind: kind.spec_bytes() }));
    }

    /// Writes one value of the metric `name`, for one combination of labels.
    pub fn write_sample<N: MetricNameEncoder>(
        &mut self,
        name: &N,
        labels: &Vec<LabelPair<'_>>,
        value: u64,
    )
        ensures
            final(self)@ == old(self)@.push(
                Entry::Sample { name: name.text(), labels: pairs_of(labels@), value },
            ),
    {
        let mut line: Vec<u8> = Vec::new();
        name.encode_text(&mut line);
        put_labels(&mut line, labels);
        put(&mut line, " ");
        put_decimal(&mut line, value);
        put(&mut line, "\n");
        assert(line@ =~= name.text() + label_block(pairs_of(labels@)) + " ".spec_bytes()
            + decimal(value as nat) + "\n".spec_bytes());
        self.append(
            line,
            Ghost(Entry::Sample { name: name.text(), labels: pairs_of(labels@), value }),
        );
    }

    /// Hands out the text of everything written so far.
    pub fn finish(self) -> (text: Vec<u8>)
        ensures
            text@ == exposition(self@),
    {
        proof {
            use_type_invariant(&self);
        }
        self.buf
    }
}

impl Default for TextEncoder {
    /// A target that holds nothing yet.
    fn default() -> (enc: Self)
        ensures
            enc@ == Seq::<Entry>::empty(),
    {
        TextEncoder::new()
    }
}

impl Encoding for TextEncoder {
    open spec fn written(&self) -> Seq<Entry> {
        self@
    }

    /// This target applies no namespace of its own.
    open spec fn namespaces(&self) -> Seq<Seq<u8>> {
        Seq::empty()
    }

    fn write_help<N: MetricNameEncoder>(&mut self, name: N, help: &str) {
        let first = self.is_empty();
        let mut line: Vec<u8> = Vec::new();
        if !first {
            put(&mut line, "\n");
        }
        let ghost gap = line@;
        put(&mut line, "# HELP ");
        name.encode_text(&mut line);
        put(&mut line, " ");
        put(&mut line, help);
        put(&mut line, "\n");
        assert(line@ =~= gap + "# HELP ".spec_bytes() + name.text() + " ".spec_bytes()
            + help.spec_bytes() + "\n".spec_bytes());
        assert(Seq::<u8>::empty() + name.text() =~= name.text());
        self.append(line, Ghost(Entry::Help { name: name.text(), help: help.spec_bytes() }));
    }
}

} // verus!
