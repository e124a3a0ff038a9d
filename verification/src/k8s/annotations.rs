//! Annotations: notes on an object that nothing selects by.

use crate::objects::{ObjectMetaView, Resource};
use crate::sorted_map::{Duplicate, SortedMap};
use vstd::prelude::*;

verus! {

/// A set of annotations, each a name with its value.
#[derive(Debug)]
pub struct Annotations {
    annotations: SortedMap<String, String>,
}

impl View for Annotations {
    type V = Map<Seq<char>, Seq<char>>;

    closed spec fn view(&self) -> Map<Seq<char>, Seq<char>> {
        self.annotations@
    }
}

/// A value that stands for one annotation.
pub trait ToAnnotation {
    /// Name and value of the annotation.
    spec fn annotation_spec(&self) -> (Seq<char>, Seq<char>);

    fn to_annotation(&self) -> (r: (&'static str, String))
        ensures
            (r.0@, r.1@) == self.annotation_spec(),
    ;
}

impl ToAnnotation for (&'static str, String) {
    open spec fn annotation_spec(&self) -> (Seq<char>, Seq<char>) {
        (self.0@, self.1@)
    }

    fn to_annotation(&self) -> (r: (&'static str, String)) {
        (self.0, self.1.clone())
    }
}

/// The metadata with more annotations, which go over those of the same name.
pub open spec fn annotated(
    meta: ObjectMetaView,
    annotations: Map<Seq<char>, Seq<char>>,
) -> ObjectMetaView {
    ObjectMetaView { annotations: meta.annotations.union_prefer_right(annotations), ..meta }
}

impl Annotations {
    /// No annotations.
    pub fn new() -> (r: Annotations)
        ensures
            r@ == Map::<Seq<char>, Seq<char>>::empty(),
    {
        Annotations { annotations: SortedMap::new() }
    }

    /// Sets the annotation of a name to a value.
    pub fn set(self, name: &'static str, value: String) -> (r: Annotations)
        ensures
            r@ == self@.insert(name@, value@),
    {
        let mut annotations = self.annotations;
        annotations.insert(name.to_owned(), value);
        Annotations { annotations }
    }

    /// Adds the annotation that a value stands for.
    pub fn add<L: ToAnnotation>(self, ann: L) -> (r: Annotations)
        ensures
            r@ == self@.insert(ann.annotation_spec().0, ann.annotation_spec().1),
    {
        let (name, value) = ann.to_annotation();
        self.set(name, value)
    }

    /// The annotations that hold one annotation.
    pub fn from<L: ToAnnotation>(source: L) -> (r: Annotations)
        ensures
            r@ == Map::<Seq<char>, Seq<char>>::empty().insert(
                source.annotation_spec().0,
                source.annotation_spec().1,
            ),
    {
        Annotations::new().add(source)
    }

    /// Puts the annotations on a value, over its annotations of the same
    /// name.
    pub fn apply_to<R: Resource>(&self, subject: &mut R)
        ensures
            final(subject)@ == R::with_meta(
                old(subject)@,
                annotated(R::meta_of(old(subject)@), self@),
            ),
            R::meta_of(final(subject)@) == annotated(R::meta_of(old(subject)@), self@),
    {
        let mut meta = subject.meta().duplicate();
        meta.annotations.extend(&self.annotations);
        subject.set_meta(meta);
    }
}

impl Default for Annotations {
    fn default() -> (r: Annotations)
        ensures
            r@ == Map::<Seq<char>, Seq<char>>::empty(),
    {
        Annotations::new()
    }
}

impl Duplicate for Annotations {
    fn duplicate(&self) -> (r: Annotations) {
        Annotations { annotations: self.annotations.duplicate() }
    }
}

impl Clone for Annotations {
    fn clone(&self) -> (r: Annotations)
        ensures
            r@ == self@,
    {
        self.duplicate()
    }
}

/// Values that take annotations.
pub trait WithAnnotations: View + Sized {
    /// The content of the value with more annotations.
    spec fn annotations_added(v: Self::V, annotations: Map<Seq<char>, Seq<char>>) -> Self::V;

    /// The value with the annotations, over its annotations of the same name.
    fn with_annotations(self, anns: &Annotations) -> (r: Self)
        ensures
            r@ == Self::annotations_added(self@, anns@),
    ;

    /// The value with one more annotation.
    fn with_annotation<A: ToAnnotation>(self, ann: &A) -> (r: Self)
        ensures
            r@ == Self::annotations_added(
                self@,
                Map::<Seq<char>, Seq<char>>::empty().insert(
                    ann.annotation_spec().0,
                    ann.annotation_spec().1,
                ),
            ),
    ;
}

impl<R: Resource> WithAnnotations for R {
    open spec fn annotations_added(v: R::V, annotations: Map<Seq<char>, Seq<char>>) -> R::V {
        R::with_meta(v, annotated(R::meta_of(v), annotations))
    }

    fn with_annotations(self, anns: &Annotations) -> (r: Self) {
        let mut subject = self;
        anns.apply_to(&mut subject);
        subject
    }

    fn with_annotation<A: ToAnnotation>(self, ann: &A) -> (r: Self) {
        let (name, value) = ann.to_annotation();
        let mut subject = self;
        let mut meta = subject.meta().duplicate();
        meta.annotations.insert(name.to_owned(), value);
        assert(meta@.annotations =~= R::meta_of(self@).annotations.union_prefer_right(
            Map::<Seq<char>, Seq<char>>::empty().insert(
                ann.annotation_spec().0,
                ann.annotation_spec().1,
            ),
        ));
        subject.set_meta(meta);
        subject
    }
}

} // verus!
