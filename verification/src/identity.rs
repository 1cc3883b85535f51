//! Schema identity extraction: deriving a canonical and a relative
//! identifier from a document's `$id` field.

use vstd::prelude::*;

use crate::json_doc::{id_field, spec_id_field, spec_string_content, string_content};
use crate::url_id::{parse_url, spec_parse_url, spec_url_path, url_path};

verus! {

/// The relative identifier derived from a URI path: exactly one leading
/// path separator is removed, if one is present; otherwise the path is
/// taken unchanged.
pub open spec fn spec_relative_of(path: Seq<char>) -> Seq<char> {
    if path.len() > 0 && path[0] == '/' {
        path.subrange(1, path.len() as int)
    } else {
        path
    }
}

/// Strip exactly one leading path separator from a URI path, giving the
/// relative identifier.
pub fn relative_of(path: &str) -> (r: String)
    ensures
        r@ == spec_relative_of(path@),
{
    let n: usize = path.unicode_len();
    if n > 0 && path.get_char(0) == '/' {
        path.substring_char(1, n).to_owned()
    } else {
        path.to_owned()
    }
}

/// Law: for any canonical URI whose path begins with a path separator,
/// the derived relative identifier is exactly the path with that one
/// leading separator removed — no more — and putting the separator back
/// restores the path.
pub proof fn lemma_relative_round_trip(path: Seq<char>)
    requires
        path.len() > 0,
        path[0] == '/',
    ensures
        spec_relative_of(path) == path.subrange(1, path.len() as int),
        seq!['/'] + spec_relative_of(path) == path,
        spec_relative_of(path).len() == path.len() - 1,
{
    assert(seq!['/'] + path.subrange(1, path.len() as int) =~= path);
}

/// Why a document yields no identity. None of these is a hard failure:
/// a caller treats each as "this document is not an addressable schema
/// root", while the variants stay distinguishable for diagnostics.
#[derive(Clone, Copy, Debug, PartialEq, Eq, Structural)]
pub enum IdentityError {
    /// The document has no `$id` member (or is not an object).
    NoIdentityDeclared,
    /// The document has a `$id` member, but its value is not a string.
    MalformedIdentityType,
    /// The `$id` value is a string, but not a parseable absolute URI.
    MalformedIdentityUri,
}

/// The identity a document declares: either the canonical URL its `$id`
/// parses to, or the reason there is none.
pub open spec fn spec_identity(v: serde_json::Value) -> Result<url::Url, IdentityError> {
    match spec_id_field(v) {
        Option::None => Result::Err(IdentityError::NoIdentityDeclared),
        Option::Some(f) => match spec_string_content(f) {
            Option::None => Result::Err(IdentityError::MalformedIdentityType),
            Option::Some(s) => match spec_parse_url(s) {
                Option::None => Result::Err(IdentityError::MalformedIdentityUri),
                Option::Some(u) => Result::Ok(u),
            },
        },
    }
}

/// A schema document's identity: its canonical identifier and the
/// relative identifier derived from it.
#[derive(Debug)]
pub struct SchemaId {
    /// The canonical identifier: the document's `$id`, parsed as an
    /// absolute URL.
    pub full_id: url::Url,
    /// The relative identifier: the canonical URL's path with one leading
    /// separator stripped.
    pub relative_id: String,
}

impl SchemaId {
    /// The relative identifier is a pure function of the canonical one.
    pub open spec fn wf(self) -> bool {
        self.relative_id@ == spec_relative_of(spec_url_path(self.full_id))
    }

    /// Derive the identity a document declares, or the reason there is
    /// none: the `$id` member must exist, hold a string, and parse as an
    /// absolute URL.
    pub fn extract(val: &serde_json::Value) -> (r: Result<SchemaId, IdentityError>)
        ensures
            match r {
                Ok(id) => id.wf() && spec_identity(*val) == Result::<url::Url, IdentityError>::Ok(
                    id.full_id,
                ),
                Err(e) => spec_identity(*val) == Result::<url::Url, IdentityError>::Err(e),
            },
    {
        let field = match id_field(val) {
            Some(f) => f,
            None => {
                return Err(IdentityError::NoIdentityDeclared);
            },
        };
        let text = match string_content(field) {
            Some(s) => s,
            None => {
                return Err(IdentityError::MalformedIdentityType);
            },
        };
        let parsed = match parse_url(text) {
            Ok(u) => u,
            Err(_) => {
                return Err(IdentityError::MalformedIdentityUri);
            },
        };
        let relative = relative_of(url_path(&parsed));
        Ok(SchemaId { full_id: parsed, relative_id: relative })
    }

    /// Derive the identity a document declares, collapsing the three
    /// "no identity" reasons into `None`.
    pub fn from_json_value(val: &serde_json::Value) -> (r: Option<SchemaId>)
        ensures
            match r {
                Some(id) => id.wf() && spec_identity(*val) == Result::<
                    url::Url,
                    IdentityError,
                >::Ok(id.full_id),
                None => spec_identity(*val) is Err,
            },
    {
        match Self::extract(val) {
            Ok(id) => Some(id),
            Err(_) => None,
        }
    }
}

} // verus!
