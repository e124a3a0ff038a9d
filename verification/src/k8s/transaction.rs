//! Single requests to the object store: what is asked of it, and what is
//! made of its answer.

use crate::json::same_text;
use crate::k8s::api_resource::{ApiResource, ApiResourceView};
use crate::meta::CRATE_NAME;
use crate::objects::{DynamicObject, DynamicObjectView, Object};
use crate::sorted_map::Duplicate;
use vstd::prelude::*;

verus! {

/// What a request does to an object.
#[derive(Clone, Copy, Debug, PartialEq, Eq, Structural)]
pub enum Action {
    /// Create the object; the store refuses if it is there.
    Create,
    /// Patch the object in by server-side apply, with force.
    Apply,
    /// Delete the object of that name.
    Delete,
}

impl Action {
    /// The name of the action.
    pub open spec fn text(self) -> Seq<char> {
        match self {
            Action::Create => "Create"@,
            Action::Apply => "Apply"@,
            Action::Delete => "Delete"@,
        }
    }

    /// The name of the action.
    pub fn to_string(&self) -> (r: String)
        ensures
            r@ == self.text(),
    {
        match self {
            Action::Create => "Create".to_owned(),
            Action::Apply => "Apply".to_owned(),
            Action::Delete => "Delete".to_owned(),
        }
    }
}

/// The answer by which the object store refuses a request.
#[derive(Debug)]
pub struct Status {
    /// The HTTP status code.
    pub code: u16,
    /// The reason, in one word of the store's vocabulary.
    pub reason: String,
    /// The reason, in words for a reader.
    pub message: String,
}

/// A failure of a request: the store refused it, or it never got an answer.
#[derive(Debug)]
pub enum KubeError {
    /// The store answered with a refusal.
    Api(Status),
    /// Anything else, in words.
    Other(String),
}

/// The content of a [`KubeError`].
pub enum KubeErrorView {
    Api { code: u16, reason: Seq<char>, message: Seq<char> },
    Other { message: Seq<char> },
}

impl View for KubeError {
    type V = KubeErrorView;

    open spec fn view(&self) -> KubeErrorView {
        match self {
            KubeError::Api(status) => KubeErrorView::Api {
                code: status.code,
                reason: status.reason@,
                message: status.message@,
            },
            KubeError::Other(message) => KubeErrorView::Other { message: message@ },
        }
    }
}

impl KubeErrorView {
    /// The store refused to create because an object of that name exists.
    pub open spec fn is_already_exists(self) -> bool {
        self matches KubeErrorView::Api { code, reason, .. } && code == 409 && reason
            == "AlreadyExists"@
    }

    /// The store has no object of that name.
    pub open spec fn is_not_found(self) -> bool {
        self matches KubeErrorView::Api { code, reason, .. } && code == 404 && reason
            == "NotFound"@
    }
}

impl KubeError {
    /// Tells whether the store refused to create because an object of that
    /// name exists.
    pub fn is_already_exists(&self) -> (r: bool)
        ensures
            r == self@.is_already_exists(),
    {
        match self {
            KubeError::Api(status) => status.code == 409 && same_text(
                status.reason.as_str(),
                "AlreadyExists",
            ),
            KubeError::Other(_) => false,
        }
    }

    /// Tells whether the store has no object of that name.
    pub fn is_not_found(&self) -> (r: bool)
        ensures
            r == self@.is_not_found(),
    {
        match self {
            KubeError::Api(status) => status.code == 404 && same_text(
                status.reason.as_str(),
                "NotFound",
            ),
            KubeError::Other(_) => false,
        }
    }
}

impl Duplicate for KubeError {
    fn duplicate(&self) -> (r: KubeError) {
        match self {
            KubeError::Api(status) => KubeError::Api(
                Status {
                    code: status.code,
                    reason: status.reason.clone(),
                    message: status.message.clone(),
                },
            ),
            KubeError::Other(message) => KubeError::Other(message.clone()),
        }
    }
}

impl Clone for KubeError {
    fn clone(&self) -> (r: KubeError)
        ensures
            r@ == self@,
    {
        self.duplicate()
    }
}

/// Why a request could not be made, or how it failed.
#[derive(Debug)]
pub enum Error {
    /// The object does not tell which resource type it is of.
    NeedApiResource { object: DynamicObject },
    /// The object has no name.
    NeedName { object: DynamicObject },
    /// The request failed.
    KubeError { kube_error: KubeError, action: Action, object_name: String },
}

/// The content of an [`Error`].
pub enum ErrorView {
    NeedApiResource { object: DynamicObjectView },
    NeedName { object: DynamicObjectView },
    KubeError { kube_error: KubeErrorView, action: Action, object_name: Seq<char> },
}

impl View for Error {
    type V = ErrorView;

    open spec fn view(&self) -> ErrorView {
        match self {
            Error::NeedApiResource { object } => ErrorView::NeedApiResource { object: object@ },
            Error::NeedName { object } => ErrorView::NeedName { object: object@ },
            Error::KubeError { kube_error, action, object_name } => ErrorView::KubeError {
                kube_error: kube_error@,
                action: *action,
                object_name: object_name@,
            },
        }
    }
}

impl Duplicate for Error {
    fn duplicate(&self) -> (r: Error) {
        match self {
            Error::NeedApiResource { object } => Error::NeedApiResource {
                object: object.duplicate(),
            },
            Error::NeedName { object } => Error::NeedName { object: object.duplicate() },
            Error::KubeError { kube_error, action, object_name } => Error::KubeError {
                kube_error: kube_error.duplicate(),
                action: *action,
                object_name: object_name.clone(),
            },
        }
    }
}

/// How an apply is to be made: by whom, and whether over other managers.
#[derive(Debug)]
pub struct PatchParams {
    pub field_manager: &'static str,
    pub force: bool,
}

/// One request for the object store.
#[derive(Debug)]
pub struct Request {
    pub action: Action,
    /// The resource type whose endpoint is asked.
    pub api_resource: ApiResource,
    /// The name of the object, which it has.
    pub name: String,
    pub object: DynamicObject,
}

/// The content of a [`Request`].
pub struct RequestView {
    pub action: Action,
    pub api_resource: ApiResourceView,
    pub name: Seq<char>,
    pub object: DynamicObjectView,
}

impl View for Request {
    type V = RequestView;

    open spec fn view(&self) -> RequestView {
        RequestView {
            action: self.action,
            api_resource: self.api_resource@,
            name: self.name@,
            object: self.object@,
        }
    }
}

impl Request {
    /// How the request is to be patched in, where it is an apply: under the
    /// name of the tool, with force.
    pub fn patch_params(&self) -> (r: Option<PatchParams>)
        ensures
            r is Some <==> self.action == Action::Apply,
            r is Some ==> r->Some_0.field_manager@ == CRATE_NAME@ && r->Some_0.force,
    {
        match self.action {
            Action::Apply => Some(PatchParams { field_manager: CRATE_NAME, force: true }),
            _ => None,
        }
    }
}

/// The request that an action on an object makes, where the object has a
/// name.
pub open spec fn request_of(
    action: Action,
    api_resource: ApiResourceView,
    object: DynamicObjectView,
) -> Option<RequestView> {
    match object.metadata.name {
        Some(name) => Some(RequestView { action, api_resource, name, object }),
        None => None,
    }
}

/// What is made of the answer to a request: a failure is told with the
/// action and the name of the object.
pub open spec fn settled(request: RequestView, outcome: Result<(), KubeErrorView>) -> Result<
    (),
    ErrorView,
> {
    match outcome {
        Ok(()) => Ok(()),
        Err(kube_error) => Err(
            ErrorView::KubeError {
                kube_error,
                action: request.action,
                object_name: request.name,
            },
        ),
    }
}

/// Makes the request of an action on an object, which needs a name.
pub fn request(action: Action, api_resource: &ApiResource, object: &DynamicObject) -> (r: Result<
    Request,
    Error,
>)
    ensures
        match request_of(action, api_resource@, object@) {
            Some(v) => r is Ok && r->Ok_0@ == v,
            None => r is Err && r->Err_0@ == (ErrorView::NeedName { object: object@ }),
        },
{
    match &object.metadata.name {
        Some(name) => Ok(
            Request {
                action,
                api_resource: api_resource.duplicate(),
                name: name.clone(),
                object: object.duplicate(),
            },
        ),
        None => Err(Error::NeedName { object: object.duplicate() }),
    }
}

/// Makes of the answer to a request what the caller is told.
pub fn settle(request: &Request, outcome: Result<(), KubeError>) -> (r: Result<(), Error>)
    ensures
        match settled(request@, crate::k8s::transaction::outcome_view(outcome)) {
            Ok(()) => r is Ok,
            Err(e) => r is Err && r->Err_0@ == e,
        },
{
    match outcome {
        Ok(()) => Ok(()),
        Err(kube_error) => Err(
            Error::KubeError {
                kube_error,
                action: request.action,
                object_name: request.name.clone(),
            },
        ),
    }
}

/// The content of the answer to a request.
pub open spec fn outcome_view(outcome: Result<(), KubeError>) -> Result<(), KubeErrorView> {
    match outcome {
        Ok(()) => Ok(()),
        Err(e) => Err(e@),
    }
}

/// The request that applies a body under a resource type.
pub fn apply(api_resource: &ApiResource, object: &DynamicObject) -> (r: Result<Request, Error>)
    ensures
        match request_of(Action::Apply, api_resource@, object@) {
            Some(v) => r is Ok && r->Ok_0@ == v,
            None => r is Err && r->Err_0@ == (ErrorView::NeedName { object: object@ }),
        },
{
    request(Action::Apply, api_resource, object)
}

/// The request that applies an object.
pub fn apply_object(object: &Object) -> (r: Result<Request, Error>)
    ensures
        match request_of(Action::Apply, object@.api_resource, object@.dyn_object) {
            Some(v) => r is Ok && r->Ok_0@ == v,
            None => r is Err && r->Err_0@ == (ErrorView::NeedName { object: object@.dyn_object }),
        },
{
    apply(&object.api_resource, &object.dyn_object)
}

/// The request that creates a body under a resource type.
pub fn create(api_resource: &ApiResource, object: &DynamicObject) -> (r: Result<Request, Error>)
    ensures
        match request_of(Action::Create, api_resource@, object@) {
            Some(v) => r is Ok && r->Ok_0@ == v,
            None => r is Err && r->Err_0@ == (ErrorView::NeedName { object: object@ }),
        },
{
    request(Action::Create, api_resource, object)
}

/// The request that creates an object.
pub fn create_object(object: &Object) -> (r: Result<Request, Error>)
    ensures
        match request_of(Action::Create, object@.api_resource, object@.dyn_object) {
            Some(v) => r is Ok && r->Ok_0@ == v,
            None => r is Err && r->Err_0@ == (ErrorView::NeedName { object: object@.dyn_object }),
        },
{
    create(&object.api_resource, &object.dyn_object)
}

/// The request that deletes the object of a body's name under a resource
/// type.
pub fn delete(api_resource: &ApiResource, object: &DynamicObject) -> (r: Result<Request, Error>)
    ensures
        match request_of(Action::Delete, api_resource@, object@) {
            Some(v) => r is Ok && r->Ok_0@ == v,
            None => r is Err && r->Err_0@ == (ErrorView::NeedName { object: object@ }),
        },
{
    request(Action::Delete, api_resource, object)
}

/// The request that deletes an object.
pub fn delete_object(object: &Object) -> (r: Result<Request, Error>)
    ensures
        match request_of(Action::Delete, object@.api_resource, object@.dyn_object) {
            Some(v) => r is Ok && r->Ok_0@ == v,
            None => r is Err && r->Err_0@ == (ErrorView::NeedName { object: object@.dyn_object }),
        },
{
    delete(&object.api_resource, &object.dyn_object)
}

/// The request of an action on an object.
pub fn request_object(action: Action, object: &Object) -> (r: Result<Request, Error>)
    ensures
        match request_of(action, object@.api_resource, object@.dyn_object) {
            Some(v) => r is Ok && r->Ok_0@ == v,
            None => r is Err && r->Err_0@ == (ErrorView::NeedName { object: object@.dyn_object }),
        },
{
    request(action, &object.api_resource, &object.dyn_object)
}

} // verus!
