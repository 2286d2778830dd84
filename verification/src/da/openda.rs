//! The identifiers of the OpenDA backends.

use vstd::prelude::*;
use vstd::string::StringExecFns;

verus! {

/// The storage schemes an OpenDA backend can use.
#[derive(Debug, Clone, Copy, PartialEq, Eq, Structural)]
pub enum OpenDAScheme {
    Avail,
    Celestia,
    Fs,
    Gcs,
    S3,
}

/// The lowercase name of a scheme.
pub open spec fn scheme_name(scheme: OpenDAScheme) -> Seq<char> {
    match scheme {
        OpenDAScheme::Avail => "avail"@,
        OpenDAScheme::Celestia => "celestia"@,
        OpenDAScheme::Fs => "fs"@,
        OpenDAScheme::Gcs => "gcs"@,
        OpenDAScheme::S3 => "s3"@,
    }
}

/// The identifier of the backend of a scheme: `openda-` and the scheme's name.
pub fn derive_identifier(scheme: OpenDAScheme) -> (r: String)
    ensures
        r@ == "openda-"@ + scheme_name(scheme),
{
    let mut r = String::from_str("openda-");
    let name = match scheme {
        OpenDAScheme::Avail => "avail",
        OpenDAScheme::Celestia => "celestia",
        OpenDAScheme::Fs => "fs",
        OpenDAScheme::Gcs => "gcs",
        OpenDAScheme::S3 => "s3",
    };
    r.append(name);
    r
}

} // verus!
