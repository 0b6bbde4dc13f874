//! Document identifiers as the editor sends them.

use tower_lsp::lsp_types::Url;
use vstd::prelude::*;

verus! {

/// Declares `url::Url`, which this crate passes on without looking inside.
#[verifier::external_type_specification]
#[verifier::external_body]
pub struct UrlType(Url);

/// What `Url::to_file_path` gives for a URL on the platform this crate is
/// built for, as text: the path on the file system that the URL stands for.
/// There is none where `to_file_path` gives none (as for a URL with a host
/// other than `localhost`) or gives a path that is not valid Unicode.
pub uninterp spec fn file_path_of(uri: Url) -> Option<Seq<char>>;

/// Calls `Url::to_file_path` and hands the path out as text. The result is
/// what `file_path_of` names for this URL.
#[verifier::external_body]
pub(crate) fn uri_file_path(uri: &Url) -> (path: Option<String>)
    ensures
        path is Some <==> file_path_of(*uri) is Some,
        path is Some ==> path.unwrap()@ == file_path_of(*uri).unwrap(),
{
    uri.to_file_path().ok().and_then(|path| path.to_str().map(|text| text.to_owned()))
}

} // verus!
