//! Types of other crates that values are carried in.

use vstd::prelude::*;

verus! {

/// The error of `serde_json`, a crate that reads and writes JSON. Nothing is
/// claimed of it: it is carried from where it came up to the caller.
#[verifier::external_type_specification]
#[verifier::external_body]
pub struct ExJsonError(serde_json::Error);

/// The error of a call made with an AWS client. Nothing is claimed of it: it
/// is carried from where it came up to the caller.
#[verifier::external_type_specification]
#[verifier::external_body]
#[verifier::reject_recursive_types(E)]
#[verifier::reject_recursive_types(R)]
pub struct ExSdkError<E, R>(aws_sdk_lambda::error::SdkError<E, R>);

/// What the AWS Lambda service answers when it does not invoke a function.
/// It occurs inside of [`crate::client::ConvertError::Invoke`] only, and nothing is claimed of it.
#[verifier::external_type_specification]
#[verifier::external_body]
pub struct ExInvokeError(aws_sdk_lambda::operation::invoke::InvokeError);

/// The raw response that an AWS client got. It occurs inside of
/// [`crate::client::ConvertError::Invoke`] only, and nothing is claimed of it.
#[verifier::external_type_specification]
#[verifier::external_body]
#[verifier::reject_recursive_types(B)]
pub struct ExHttpResponse<B>(aws_smithy_runtime_api::http::Response<B>);

/// The body of a raw response. It occurs inside of [`crate::client::ConvertError::Invoke`]
/// only, and nothing is claimed of it.
#[verifier::external_type_specification]
#[verifier::external_body]
pub struct ExSdkBody(aws_sdk_lambda::primitives::SdkBody);

/// The client of the AWS Lambda service. Nothing is claimed of it: it is kept
/// for the caller to send requests with.
#[verifier::external_type_specification]
#[verifier::external_body]
pub struct ExLambdaClient(aws_sdk_lambda::Client);

/// `Client::clone` of `aws_sdk_lambda` gives another handle to the same
/// client: a client is a shared pointer to its settings, and the copy points
/// to the same ones. So the copy is as good as the client itself.
pub assume_specification[ <aws_sdk_lambda::Client as Clone>::clone ](
    client: &aws_sdk_lambda::Client,
) -> (res: aws_sdk_lambda::Client)
    ensures
        res == *client,
;

} // verus!
