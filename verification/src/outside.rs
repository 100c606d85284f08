//! Calls whose results are not computed here: URL parsing by the `url`
//! crate, and UTF-8 decoding by the standard library. Each is a wrapper
//! whose contract is believed, not proved.

use vstd::prelude::*;

verus! {

/// What `url::Url::parse` makes of `input`: the path of the parsed URL,
/// or the text of the parse error.
pub uninterp spec fn url_parse_outcome(input: Seq<char>) -> Result<Seq<char>, Seq<char>>;

/// Calls `url::Url::parse(input)`. On success it hands back the URL's
/// path (`Url::path`); on failure the error's `Display` text. Which inputs
/// parse, and to which path, is left to the `url` crate and only named
/// here, as a function of `input` alone.
#[verifier::external_body]
pub(crate) fn parse_url(input: &str) -> (r: Result<String, String>)
    ensures
        url_parse_outcome(input@) == match r {
            Ok(path) => Ok::<Seq<char>, Seq<char>>(path@),
            Err(msg) => Err::<Seq<char>, Seq<char>>(msg@),
        },
{
    match url::Url::parse(input) {
        Ok(u) => Ok(u.path().to_string()),
        Err(e) => Err(e.to_string()),
    }
}

/// The address type of the JSON-RPC client, from the `url2` crate.
#[verifier::external_type_specification]
#[verifier::external_body]
pub struct ExUrl2(url2::Url2);

/// What `url2::Url2::try_parse` makes of `input`: the parsed address, or
/// the text of the parse error.
pub uninterp spec fn rpc_uri_outcome(input: Seq<char>) -> Result<url2::Url2, Seq<char>>;

/// Calls `url2::Url2::try_parse(input)`, handing back the parsed address or
/// the error's `Display` text. Which inputs parse, and to which address, is
/// left to the crate and only named here, as a function of `input` alone.
#[verifier::external_body]
pub(crate) fn parse_rpc_uri(input: &str) -> (r: Result<url2::Url2, String>)
    ensures
        rpc_uri_outcome(input@) == match r {
            Ok(u) => Ok::<url2::Url2, Seq<char>>(u),
            Err(msg) => Err::<url2::Url2, Seq<char>>(msg@),
        },
{
    url2::Url2::try_parse(input).map_err(|e| e.to_string())
}

/// The `Display` text of the error that `String::from_utf8` gives for
/// bytes that are not UTF-8.
pub uninterp spec fn utf8_error_text(bytes: Seq<u8>) -> Seq<char>;

/// Calls `String::from_utf8`: the text the bytes encode when they are
/// valid UTF-8, as its documentation states; otherwise the `Display`
/// text of its error, which is only named here.
#[verifier::external_body]
pub(crate) fn decode_utf8(bytes: Vec<u8>) -> (r: Result<String, String>)
    ensures
        r is Ok <==> vstd::utf8::valid_utf8(bytes@),
        match r {
            Ok(s) => s@ == vstd::utf8::decode_utf8(bytes@),
            Err(msg) => msg@ == utf8_error_text(bytes@),
        },
{
    String::from_utf8(bytes).map_err(|e| e.to_string())
}

/// What `String::from_utf8_lossy` makes of `bytes`.
pub uninterp spec fn lossy_utf8(bytes: Seq<u8>) -> Seq<char>;

/// Calls `String::from_utf8_lossy`. Its documentation states that valid
/// UTF-8 comes back as the text it encodes; where the bytes are not valid,
/// which replacement characters stand in their place is only named.
#[verifier::external_body]
pub(crate) fn decode_utf8_lossy(bytes: &Vec<u8>) -> (r: String)
    ensures
        r@ == lossy_utf8(bytes@),
        vstd::utf8::valid_utf8(bytes@) ==> r@ == vstd::utf8::decode_utf8(bytes@),
{
    String::from_utf8_lossy(bytes.as_slice()).into_owned()
}

} // verus!
