//! Reading the description of a package.
use vstd::prelude::*;

verus! {

/// A JSON document, as `serde_json` holds it.
#[verifier::external_type_specification]
#[verifier::external_body]
pub struct ExValue(serde_json::Value);

/// The document that `serde_json::from_reader` reads from `bytes`, if they hold
/// one.
pub uninterp spec fn json_document(bytes: Seq<u8>) -> Option<serde_json::Value>;

/// Calls `serde_json::from_reader`. Whether the bytes hold a document, and
/// which, depends on the bytes alone. Why they do not hold one is not handed
/// on.
#[verifier::external_body]
fn parse_json(bytes: &[u8]) -> (document: Option<serde_json::Value>)
    ensures
        document == json_document(bytes@),
{
    serde_json::from_reader(bytes).ok()
}

/// What came of reading the description of a package.
#[derive(Debug)]
pub enum PackageJsonFile {
    /// The file could not be opened.
    Unopened,
    /// The file does not hold a JSON document.
    Unparsable,
    /// The document that the file holds.
    Document(serde_json::Value),
}

/// What an opened file, or its absence, and the document in it come to.
pub open spec fn package_json_file(
    opened: bool,
    document: Option<serde_json::Value>,
) -> PackageJsonFile {
    match (opened, document) {
        (false, _) => PackageJsonFile::Unopened,
        (true, None) => PackageJsonFile::Unparsable,
        (true, Some(document)) => PackageJsonFile::Document(document),
    }
}

/// Sorts out what came of opening a file and of reading a document from it.
pub fn sort_package_json(opened: bool, document: Option<serde_json::Value>) -> (file:
    PackageJsonFile)
    ensures
        file == package_json_file(opened, document),
{
    if !opened {
        PackageJsonFile::Unopened
    } else {
        match document {
            None => PackageJsonFile::Unparsable,
            Some(document) => PackageJsonFile::Document(document),
        }
    }
}

/// Reads the description of a package from the contents of its file, if it
/// could be opened.
pub fn read_package_json(contents: Option<&[u8]>) -> (file: PackageJsonFile)
    ensures
        match contents {
            None => file is Unopened,
            Some(bytes) => file == package_json_file(true, json_document(bytes@)),
        },
{
    match contents {
        None => sort_package_json(false, None),
        Some(bytes) => sort_package_json(true, parse_json(bytes)),
    }
}

/// A description that could not be opened is told from one that holds no document, and
/// the document is handed on as it was read.
pub proof fn a_document_is_handed_on(
    contents: Option<&[u8]>,
    file: PackageJsonFile,
    opened: bool,
    document: Option<serde_json::Value>,
    sorted: PackageJsonFile,
)
    requires
        call_ensures(read_package_json, (contents,), file),
        call_ensures(sort_package_json, (opened, document), sorted),
    ensures
        contents is None <==> file is Unopened,
        contents matches Some(bytes) ==> match json_document(bytes@) {
            Some(value) => file matches PackageJsonFile::Document(same) && same == value,
            None => file is Unparsable,
        },
        !opened <==> sorted is Unopened,
        opened && document is None <==> sorted is Unparsable,
        opened ==> (document matches Some(value) ==> (sorted matches PackageJsonFile::Document(same)
            && same == value)),
{
}

} // verus!
