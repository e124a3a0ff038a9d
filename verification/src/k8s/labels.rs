//! Labels: what objects are selected by.

use crate::objects::{ObjectMetaView, Resource};
use crate::sorted_map::{sorted_entries, Duplicate, SortedMap};
use vstd::prelude::*;
use vstd::string::*;

verus! {

/// A set of labels, each a name with its value.
#[derive(Debug)]
pub struct Labels {
    labels: SortedMap<String, String>,
}

impl View for Labels {
    type V = Map<Seq<char>, Seq<char>>;

    closed spec fn view(&self) -> Map<Seq<char>, Seq<char>> {
        self.labels@
    }
}

/// A value that stands for one label.
pub trait ToLabel {
    /// Name and value of the label.
    spec fn label_spec(&self) -> (Seq<char>, Seq<char>);

    fn to_label(&self) -> (r: (&'static str, String))
        ensures
            (r.0@, r.1@) == self.label_spec(),
    ;
}

impl ToLabel for (&'static str, String) {
    open spec fn label_spec(&self) -> (Seq<char>, Seq<char>) {
        (self.0@, self.1@)
    }

    fn to_label(&self) -> (r: (&'static str, String)) {
        (self.0, self.1.clone())
    }
}

/// The selector text of labels in the given order: `name=value` for each,
/// joined by commas.
pub open spec fn selector_of(entries: Seq<(Seq<char>, Seq<char>)>) -> Seq<char>
    decreases entries.len(),
{
    if entries.len() == 0 {
        Seq::empty()
    } else if entries.len() == 1 {
        entries[0].0 + seq!['='] + entries[0].1
    } else {
        selector_of(entries.drop_last()) + seq![','] + entries.last().0 + seq!['=']
            + entries.last().1
    }
}

/// The selector of one label is its name, `=` and its value.
pub proof fn lemma_selector_of_one(name: Seq<char>, value: Seq<char>)
    ensures
        selector_of(
            sorted_entries::<String, Seq<char>>(
                Map::<Seq<char>, Seq<char>>::empty().insert(name, value),
            ),
        ) == name + seq!['='] + value,
{
    let one = seq![(name, value)];
    assert(crate::sorted_map::as_map(one) =~= Map::<Seq<char>, Seq<char>>::empty().insert(
        name,
        value,
    )) by {
        assert(one[0].0 == name);
        assert forall|k: Seq<char>| crate::sorted_map::present(one, k) implies k == name by {
            let i = crate::sorted_map::position(one, k);
            assert(one[i].0 == k);
        }
        assert(crate::sorted_map::present(one, name));
        assert(crate::sorted_map::position(one, name) == 0);
    }
    crate::sorted_map::lemma_sorted_entries::<String, Seq<char>>(one);
}

/// How a list or a watch of the object store is narrowed.
#[derive(Debug)]
pub struct ListParams {
    /// Only objects that carry these labels are listed.
    pub label_selector: Option<String>,
    /// The number of seconds after which a watch ends.
    pub timeout: Option<u32>,
}

impl Default for ListParams {
    fn default() -> (r: ListParams)
        ensures
            r.label_selector is None,
            r.timeout is None,
    {
        ListParams { label_selector: None, timeout: None }
    }
}

impl ListParams {
    /// Narrows to the objects that a selector picks.
    pub fn labels(self, label_selector: &str) -> (r: ListParams)
        ensures
            r.label_selector is Some,
            r.label_selector->Some_0@ == label_selector@,
            r.timeout == self.timeout,
    {
        ListParams { label_selector: Some(label_selector.to_owned()), timeout: self.timeout }
    }

    /// Ends a watch after so many seconds.
    pub fn timeout(self, seconds: u32) -> (r: ListParams)
        ensures
            r.label_selector == self.label_selector,
            r.timeout == Some(seconds),
    {
        ListParams { label_selector: self.label_selector, timeout: Some(seconds) }
    }
}

/// The metadata with more labels, which go over those of the same name.
pub open spec fn labelled(meta: ObjectMetaView, labels: Map<Seq<char>, Seq<char>>) -> ObjectMetaView {
    ObjectMetaView { labels: meta.labels.union_prefer_right(labels), ..meta }
}

impl Labels {
    /// No labels.
    pub fn new() -> (r: Labels)
        ensures
            r@ == Map::<Seq<char>, Seq<char>>::empty(),
    {
        Labels { labels: SortedMap::new() }
    }

    /// Sets the label of a name to a value.
    pub fn set(self, name: &'static str, value: String) -> (r: Labels)
        ensures
            r@ == self@.insert(name@, value@),
    {
        let mut labels = self.labels;
        labels.insert(name.to_owned(), value);
        Labels { labels }
    }

    /// Adds the label that a value stands for.
    pub fn add<L: ToLabel>(self, label: L) -> (r: Labels)
        ensures
            r@ == self@.insert(label.label_spec().0, label.label_spec().1),
    {
        let (name, value) = label.to_label();
        self.set(name, value)
    }

    /// The labels that hold one label.
    pub fn from<L: ToLabel>(source: L) -> (r: Labels)
        ensures
            r@ == Map::<Seq<char>, Seq<char>>::empty().insert(
                source.label_spec().0,
                source.label_spec().1,
            ),
    {
        Labels::new().add(source)
    }

    /// The selector text that picks the objects with all these labels: the
    /// labels in ascending order of their names.
    pub fn to_selector(&self) -> (r: String)
        ensures
            r@ == selector_of(sorted_entries::<String, Seq<char>>(self@)),
    {
        let mut out = String::new();
        let n = self.labels.len();
        let ghost entries = self.labels.entries();
        let mut i: usize = 0;
        proof {
            reveal_strlit(",");
            reveal_strlit("=");
            assert(entries.subrange(0, 0) =~= Seq::empty());
        }
        while i < n
            invariant
                i <= n,
                n == entries.len(),
                entries == self.labels.entries(),
                out@ == selector_of(entries.subrange(0, i as int)),
                ","@ == seq![','],
                "="@ == seq!['='],
            decreases n - i,
        {
            let ghost before = entries.subrange(0, i as int);
            let ghost after = entries.subrange(0, i as int + 1);
            proof {
                assert(after.drop_last() =~= before);
                assert(after.last() == entries[i as int]);
            }
            if i > 0 {
                out.append(",");
            }
            out.append(self.labels.key_at(i).as_str());
            out.append("=");
            out.append(self.labels.value_at(i).as_str());
            proof {
                if i == 0 {
                    assert(out@ =~= after[0].0 + seq!['='] + after[0].1);
                } else {
                    assert(out@ =~= selector_of(before) + seq![','] + after.last().0 + seq!['=']
                        + after.last().1);
                }
            }
            i += 1;
        }
        assert(entries.subrange(0, i as int) =~= entries);
        out
    }

    /// The parameters of a list of the objects with all these labels.
    pub fn to_listparams(&self) -> (r: ListParams)
        ensures
            r.label_selector is Some,
            r.label_selector->Some_0@ == selector_of(sorted_entries::<String, Seq<char>>(self@)),
            r.timeout is None,
    {
        let selector = self.to_selector();
        ListParams::default().labels(selector.as_str())
    }

    /// Puts the labels on a value, over its labels of the same name.
    pub fn apply_to<R: Resource>(&self, subject: &mut R)
        ensures
            final(subject)@ == R::with_meta(
                old(subject)@,
                labelled(R::meta_of(old(subject)@), self@),
            ),
            R::meta_of(final(subject)@) == labelled(R::meta_of(old(subject)@), self@),
    {
        let mut meta = subject.meta().duplicate();
        meta.labels.extend(&self.labels);
        subject.set_meta(meta);
    }
}

impl Default for Labels {
    fn default() -> (r: Labels)
        ensures
            r@ == Map::<Seq<char>, Seq<char>>::empty(),
    {
        Labels::new()
    }
}

impl Duplicate for Labels {
    fn duplicate(&self) -> (r: Labels) {
        Labels { labels: self.labels.duplicate() }
    }
}

impl Clone for Labels {
    fn clone(&self) -> (r: Labels)
        ensures
            r@ == self@,
    {
        self.duplicate()
    }
}

/// Values that take labels.
pub trait WithLabels: View + Sized {
    /// The content of the value with more labels.
    spec fn labels_added(v: Self::V, labels: Map<Seq<char>, Seq<char>>) -> Self::V;

    /// The value with the labels, over its labels of the same name.
    fn with_labels(self, labels: &Labels) -> (r: Self)
        ensures
            r@ == Self::labels_added(self@, labels@),
    ;

    /// The value with one more label.
    fn with_label<L: ToLabel>(self, label: &L) -> (r: Self)
        ensures
            r@ == Self::labels_added(
                self@,
                Map::<Seq<char>, Seq<char>>::empty().insert(
                    label.label_spec().0,
                    label.label_spec().1,
                ),
            ),
    ;
}

impl<R: Resource> WithLabels for R {
    open spec fn labels_added(v: R::V, labels: Map<Seq<char>, Seq<char>>) -> R::V {
        R::with_meta(v, labelled(R::meta_of(v), labels))
    }

    fn with_labels(self, labels: &Labels) -> (r: Self) {
        let mut subject = self;
        labels.apply_to(&mut subject);
        subject
    }

    fn with_label<L: ToLabel>(self, label: &L) -> (r: Self) {
        let (name, value) = label.to_label();
        let mut subject = self;
        let mut meta = subject.meta().duplicate();
        meta.labels.insert(name.to_owned(), value);
        assert(meta@.labels =~= R::meta_of(self@).labels.union_prefer_right(
            Map::<Seq<char>, Seq<char>>::empty().insert(
                label.label_spec().0,
                label.label_spec().1,
            ),
        ));
        subject.set_meta(meta);
        subject
    }
}

} // verus!
