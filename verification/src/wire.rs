//! The body of an authorization query, as the control plane reads it. The body is written
//! by `k8s_openapi` and `serde_json`; Verus takes the contract of the call on trust.

use k8s_openapi::api::authorization::v1::{
    ResourceAttributes, SelfSubjectAccessReview, SelfSubjectAccessReviewSpec,
};
use vstd::prelude::*;

verus! {

/// `serde_json::Error`, carried through as an opaque value.
#[verifier::external_type_specification]
#[verifier::external_body]
pub struct ExJsonError(serde_json::Error);

/// What `serde_json` writes for the `SelfSubjectAccessReview` of `k8s_openapi` whose
/// resource attributes are `group`, `resource`, `namespace` and `verb`, and which holds
/// nothing else: the JSON text, in bytes, or nothing where it fails to write one.
pub uninterp spec fn review_document(
    group: Option<Seq<char>>,
    resource: Seq<char>,
    namespace: Option<Seq<char>>,
    verb: Seq<char>,
) -> Option<Seq<u8>>;

/// `serde_json::to_vec` on a `SelfSubjectAccessReview` of `k8s_openapi` with the given
/// resource attributes, default metadata and no status. The contract claims that what
/// comes back, the bytes written or the failure to write, depends on the four arguments
/// alone; it does not claim that writing succeeds.
#[verifier::external_body]
pub(crate) fn encode_review(
    group: &Option<String>,
    resource: &String,
    namespace: &Option<String>,
    verb: &String,
) -> (r: Result<Vec<u8>, serde_json::Error>)
    ensures
        r matches Ok(body) ==> review_document(
            group.deep_view(),
            resource@,
            namespace.deep_view(),
            verb@,
        ) == Some(body@),
        r is Err ==> review_document(group.deep_view(), resource@, namespace.deep_view(), verb@)
            is None,
{
    let attributes = ResourceAttributes {
        group: group.clone(),
        resource: Some(resource.clone()),
        namespace: namespace.clone(),
        verb: Some(verb.clone()),
        ..Default::default()
    };
    let spec = SelfSubjectAccessReviewSpec { resource_attributes: Some(attributes), ..Default::default() };
    serde_json::to_vec(&SelfSubjectAccessReview { spec, ..Default::default() })
}

} // verus!
