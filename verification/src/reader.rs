//! Reading a manifest text into the plain document shape: the parse itself
//! is the outside parser's work, taken on trust; everything after it is
//! verified extraction.
use vstd::prelude::*;
use crate::manifest::DocEntry;
use crate::manifest::TableEntry;
use crate::manifest::TopVal;
use crate::manifest::FieldVal;
use crate::manifest::ManifestInfo;
use crate::manifest::ManifestError;
use crate::manifest::ManifestView;
use crate::manifest::spec_extract;
use crate::manifest::extract_manifest;

verus! {

/// The document a manifest text parses to: its top-level entries in
/// declaration order, with text and section values kept and every other
/// value shape collapsed; absent when the text is not a well-formed
/// manifest. A fixed function of the text alone.
pub uninterp spec fn parsed_toml_doc(s: Seq<char>) -> Option<Seq<DocEntry>>;

/// Relies on toml::Table's FromStr: parsing a manifest document yields its
/// top-level table, whose entries iterate in declaration order under the
/// crate's preserve_order feature; string values and nested tables keep
/// their text and keys.
#[verifier::external_body]
fn parse_doc(text: &str) -> (r: Option<Vec<DocEntry>>)
    ensures
        match r {
            Some(v) => parsed_toml_doc(text@) == Some(v@),
            None => parsed_toml_doc(text@) is None,
        },
{
    let top = match text.parse::<toml::Table>() {
        Ok(t) => t,
        Err(_) => return None,
    };
    Some(top.into_iter().map(|(k, v)| DocEntry { key: k, value: match v {
        toml::Value::String(s) => TopVal::Text(s),
        toml::Value::Table(t) => TopVal::Table(t.into_iter().map(|(k2, v2)| TableEntry {
            key: k2,
            value: if let toml::Value::String(s2) = v2 { FieldVal::Text(s2) } else { FieldVal::NonText },
        }).collect()),
        _ => TopVal::Other,
    } }).collect())
}

/// What parsing-then-extracting a manifest text yields.
pub open spec fn spec_parse_manifest(s: Seq<char>) -> Result<ManifestView, ManifestError> {
    match parsed_toml_doc(s) {
        None => Err(ManifestError::Unparsable),
        Some(d) => spec_extract(d),
    }
}

/// Parses a manifest text and extracts the component's name, description
/// and dependency names; an unparsable text is the error `Unparsable`, and
/// an ill-shaped section the corresponding error of the extraction.
pub fn parse_manifest(text: &str) -> (r: Result<ManifestInfo, ManifestError>)
    ensures
        match r {
            Ok(m) => spec_parse_manifest(text@) == Ok::<ManifestView, ManifestError>(m.vw()),
            Err(e) => spec_parse_manifest(text@) == Err::<ManifestView, ManifestError>(e),
        },
{
    match parse_doc(text) {
        None => Err(ManifestError::Unparsable),
        Some(entries) => extract_manifest(&entries),
    }
}

} // verus!
