//! How the AWS services are reached.

use crate::text;
use vstd::prelude::*;

verus! {

/// The region to use where the environment names none.
pub fn fallback_region() -> (res: &'static str)
    ensures
        res@ == "ap-southeast-2"@,
{
    "ap-southeast-2"
}

/// FORCE_PATH_STYLE env is used when using alternative S3 servers that
/// cannot use the domain style method like MinIO: it asks for the path style
/// by the value `true`, and by no other
pub fn force_path_style_env(value: Option<String>) -> (res: bool)
    ensures
        res == (value matches Some(value) && value@ == "true"@),
{
    match value {
        Some(value) => text::same(value.as_str(), "true"),
        None => false,
    }
}

/// The path style is used exactly where the environment says `true`, and the
/// fallback region is Sydney.
pub proof fn law_settings_of_aws(value: Option<String>, asked: bool, region: &'static str)
    requires
        call_ensures(force_path_style_env, (value,), asked),
        call_ensures(fallback_region, (), region),
    ensures
        asked <==> (value matches Some(text) && text@ == "true"@),
        region@ == "ap-southeast-2"@,
{
}

} // verus!
