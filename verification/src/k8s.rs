//! What the tool writes on the objects of the store to know them again.

pub mod annotations;
pub mod api_resource;
pub mod labels;
pub mod lock;
pub mod transaction;

use crate::meta;
use vstd::prelude::*;

verus! {

/// The name of the annotation that records the version of the tool.
pub const VERSION_KEY: &'static str = "kube-release/version";

/// The name of the label that says what an object is to the tool.
pub const TYPE_KEY: &'static str = "kube-release/type";

/// The name of the label that says which release an object belongs to.
pub const RELEASE_KEY: &'static str = "kube-release/release";

/// The version of the tool, as an annotation.
#[derive(Clone, Copy, Debug)]
pub struct CrateVersion;

impl annotations::ToAnnotation for CrateVersion {
    open spec fn annotation_spec(&self) -> (Seq<char>, Seq<char>) {
        (VERSION_KEY@, meta::CRATE_VERSION@)
    }

    fn to_annotation(&self) -> (r: (&'static str, String)) {
        (VERSION_KEY, meta::CRATE_VERSION.to_owned())
    }
}

/// What an object is to the tool.
#[derive(Clone, Copy, Debug)]
pub enum ObjectType {
    /// The lock of a release.
    Lock,
    /// The persisted state of a release.
    ReleaseState,
    /// An object of a release.
    Managed,
}

impl ObjectType {
    /// The value of the type label.
    pub open spec fn text(self) -> Seq<char> {
        match self {
            ObjectType::Lock => "lock"@,
            ObjectType::ReleaseState => "release-state"@,
            ObjectType::Managed => "managed"@,
        }
    }

    /// The value of the type label.
    pub fn as_str(&self) -> (r: &'static str)
        ensures
            r@ == self.text(),
    {
        match self {
            ObjectType::Lock => "lock",
            ObjectType::ReleaseState => "release-state",
            ObjectType::Managed => "managed",
        }
    }

    /// The value of the type label.
    pub fn to_string(&self) -> (r: String)
        ensures
            r@ == self.text(),
    {
        self.as_str().to_owned()
    }
}

impl labels::ToLabel for ObjectType {
    open spec fn label_spec(&self) -> (Seq<char>, Seq<char>) {
        (TYPE_KEY@, self.text())
    }

    fn to_label(&self) -> (r: (&'static str, String)) {
        (TYPE_KEY, self.to_string())
    }
}

/// The name of a release, as a label.
#[derive(Debug)]
pub struct ReleaseName(pub String);

impl labels::ToLabel for ReleaseName {
    open spec fn label_spec(&self) -> (Seq<char>, Seq<char>) {
        (RELEASE_KEY@, self.0@)
    }

    fn to_label(&self) -> (r: (&'static str, String)) {
        (RELEASE_KEY, self.0.clone())
    }
}

impl Clone for ReleaseName {
    fn clone(&self) -> (r: ReleaseName)
        ensures
            r.0@ == self.0@,
    {
        ReleaseName(self.0.clone())
    }
}

/// The three keys are three different names.
pub proof fn lemma_keys_differ()
    ensures
        TYPE_KEY@ != RELEASE_KEY@,
        TYPE_KEY@ != VERSION_KEY@,
        RELEASE_KEY@ != VERSION_KEY@,
{
    reveal_strlit("kube-release/version");
    reveal_strlit("kube-release/type");
    reveal_strlit("kube-release/release");
    assert(TYPE_KEY@.len() == 17);
    assert(RELEASE_KEY@.len() == 20);
    assert(VERSION_KEY@.len() == 20);
    assert(RELEASE_KEY@[13] == 'r');
    assert(VERSION_KEY@[13] == 'v');
}

} // verus!
