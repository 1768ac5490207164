//! The address that a connection is opened to.

use vstd::prelude::*;

verus! {

/// `url::ParseError`, the report that a text is no absolute URL.
#[verifier::external_type_specification]
#[verifier::external_body]
pub struct ExParseError(url::ParseError);

/// What `url::Url::parse` makes of a piece of text: the serialization of the
/// URL that it reads from it, or nothing where it reads none.
pub uninterp spec fn parsed_url(input: Seq<char>) -> Option<Seq<char>>;

/// The text is not an absolute URL.
#[derive(Clone, Debug, PartialEq, Eq)]
pub struct InvalidUrl {
    /// What is wrong with the text.
    pub reason: String,
}

/// `url::Url::parse`, with the URL given back as its serialization. Parsing
/// depends on the text alone, so the outcome is `parsed_url` of the text.
#[verifier::external_body]
fn parse_url(input: &str) -> (parsed: Result<String, url::ParseError>)
    ensures
        parsed matches Ok(address) ==> parsed_url(input@) == Some(address@),
        parsed is Err ==> parsed_url(input@) is None,
{
    match url::Url::parse(input) {
        Ok(url) => Ok(String::from(url)),
        Err(defect) => Err(defect),
    }
}

/// Reads the address to connect to from the text a caller gave. The address
/// comes back in the normal form that the handshake is made with.
pub fn endpoint(url: &str) -> (outcome: Result<String, InvalidUrl>)
    ensures
        outcome matches Ok(address) ==> parsed_url(url@) == Some(address@),
        outcome is Err <==> parsed_url(url@) is None,
{
    match parse_url(url) {
        Ok(address) => Ok(address),
        Err(defect) => Err(InvalidUrl { reason: defect.to_string() }),
    }
}

} // verus!
