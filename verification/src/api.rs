//! The requests that the remote directory is asked with.

use vstd::prelude::*;
use vstd::string::*;
use crate::user::UserConfig;

verus! {

/// Name under which this client announces itself to the directory.
pub const CLIENT_TAG: &'static str = "LinuxVPN";

/// Version under which this client announces itself to the directory.
pub const VERSION: &'static str = "0.1.0";

/// Path of the list of logical servers.
pub const LOGICALS_PATH: &'static str = "vpn/logicals";

/// Path of the caller's public address.
pub const LOCATION_PATH: &'static str = "/vpn/location";

/// Longest base address, and longest path, that an address is made of, in
/// bytes. An address holds at most 4 GiB; the limit on its parts leaves room
/// for the characters that are written out as escapes.
pub const MAX_URL_PART: usize = 0x400_0000;

/// Why no address was made.
#[derive(Debug, PartialEq, Eq, Structural, Copy, Clone)]
pub enum UrlError {
    /// The base address or the path is longer than `MAX_URL_PART` bytes.
    TooLong,
    /// The base address is no absolute address.
    NotAnAddress,
}

/// One GET request: where it goes and the header lines it carries.
#[derive(Debug, Clone, PartialEq, Eq)]
pub struct ApiRequest {
    pub url: String,
    pub headers: Vec<(String, String)>,
}

/// The text of the address that `url::Url::parse` reads from `base`, after
/// `url::Url::set_path` has replaced its path by `path`; nothing where
/// `base` is no absolute address.
pub uninterp spec fn url_with_path(base: Seq<char>, path: Seq<char>) -> Option<Seq<char>>;

/// Calls `url::Url::parse` on `base`, `url::Url::set_path` with `path` on
/// the result, and hands out the text of the address (`url::Url::as_str`).
/// Not proved: that the result is the one that `url_with_path` names, which
/// says no more than that it depends on the two texts alone. `set_path`
/// counts the bytes of an address in 32 bits and stops the program where
/// they do not fit, so both parts are required to be short: with parts of
/// at most `MAX_URL_PART` bytes an address would have to grow sixtyfold to
/// reach that limit, and an escape makes three bytes of one.
#[verifier::external_body]
fn set_url_path(base: &str, path: &str) -> (r: Option<String>)
    requires
        byte_len(base@) <= MAX_URL_PART,
        byte_len(path@) <= MAX_URL_PART,
    ensures
        match r {
            Some(address) => url_with_path(base@, path@) == Some(address@),
            None => url_with_path(base@, path@) is None,
        },
{
    match url::Url::parse(base) {
        Ok(mut address) => {
            address.set_path(path);
            Some(String::from(address.as_str()))
        },
        Err(_) => None,
    }
}

/// The length of a text in bytes, in UTF-8.
pub open spec fn byte_len(s: Seq<char>) -> nat {
    vstd::utf8::encode_utf8(s).len()
}

/// The header lines as pairs of texts.
pub open spec fn header_texts(headers: Seq<(String, String)>) -> Seq<(Seq<char>, Seq<char>)> {
    headers.map_values(|h: (String, String)| (h.0@, h.1@))
}

/// The three header lines that every request to the directory carries: the
/// client's tag and version, the version of the interface, and the kind of
/// answer that is accepted.
pub open spec fn api_headers() -> Seq<(Seq<char>, Seq<char>)> {
    seq![
        ("x-pm-appversion"@, CLIENT_TAG@ + seq!['_'] + VERSION@),
        ("x-pm-apiversion"@, "3"@),
        ("Accept"@, "application/vnd.protonmail.v1+json"@),
    ]
}

/// The address that a request for `path` goes to, for a directory at
/// `api_domain`. A part of more than `MAX_URL_PART` bytes is refused as too
/// long, before anything else is looked at.
pub fn endpoint_url(api_domain: &str, path: &str) -> (r: Result<String, UrlError>)
    ensures
        match r {
            Ok(address) => byte_len(api_domain@) <= MAX_URL_PART && byte_len(path@)
                <= MAX_URL_PART && url_with_path(api_domain@, path@) == Some(address@),
            Err(UrlError::TooLong) => byte_len(api_domain@) > MAX_URL_PART || byte_len(path@)
                > MAX_URL_PART,
            Err(UrlError::NotAnAddress) => byte_len(api_domain@) <= MAX_URL_PART && byte_len(
                path@,
            ) <= MAX_URL_PART && url_with_path(api_domain@, path@) is None,
        },
{
    if api_domain.as_bytes().len() > MAX_URL_PART || path.as_bytes().len() > MAX_URL_PART {
        Err(UrlError::TooLong)
    } else {
        match set_url_path(api_domain, path) {
            Some(address) => Ok(address),
            None => Err(UrlError::NotAnAddress),
        }
    }
}

/// The request to `url`, with the three header lines of the directory.
pub fn api_request(url: String) -> (request: ApiRequest)
    ensures
        request.url == url,
        header_texts(request.headers@) == api_headers(),
{
    let mut version = String::new();
    version.append(CLIENT_TAG);
    version.push('_');
    version.append(VERSION);
    let mut headers: Vec<(String, String)> = Vec::new();
    headers.push(("x-pm-appversion".to_owned(), version));
    headers.push(("x-pm-apiversion".to_owned(), "3".to_owned()));
    headers.push(("Accept".to_owned(), "application/vnd.protonmail.v1+json".to_owned()));
    assert(header_texts(headers@) =~= api_headers()) by {
        assert(version@ =~= CLIENT_TAG@ + seq!['_'] + VERSION@);
        assert(header_texts(headers@)[0] == (headers@[0].0@, headers@[0].1@));
        assert(header_texts(headers@)[1] == (headers@[1].0@, headers@[1].1@));
        assert(header_texts(headers@)[2] == (headers@[2].0@, headers@[2].1@));
    }
    ApiRequest { url, headers }
}

/// What a request for `path` is, for a directory at `api_domain`: the
/// address with the three header lines, or the reason why there is none.
pub open spec fn requested(
    api_domain: Seq<char>,
    path: Seq<char>,
    r: Result<ApiRequest, UrlError>,
) -> bool {
    match r {
        Ok(request) => byte_len(api_domain) <= MAX_URL_PART && url_with_path(api_domain, path)
            == Some(request.url@) && header_texts(request.headers@) == api_headers(),
        Err(UrlError::TooLong) => byte_len(api_domain) > MAX_URL_PART,
        Err(UrlError::NotAnAddress) => byte_len(api_domain) <= MAX_URL_PART && url_with_path(
            api_domain,
            path,
        ) is None,
    }
}

/// The request for the list of logical servers, for the directory of `user`.
pub fn logicals_request(user: &UserConfig) -> (r: Result<ApiRequest, UrlError>)
    ensures
        requested(user.api_domain@, LOGICALS_PATH@, r),
{
    request_for(user.api_domain.as_str(), LOGICALS_PATH)
}

/// The request for the caller's public address, for the directory of `user`.
pub fn location_request(user: &UserConfig) -> (r: Result<ApiRequest, UrlError>)
    ensures
        requested(user.api_domain@, LOCATION_PATH@, r),
{
    request_for(user.api_domain.as_str(), LOCATION_PATH)
}

/// The request for `path`, for a directory at `api_domain`.
fn request_for(api_domain: &str, path: &'static str) -> (r: Result<ApiRequest, UrlError>)
    requires
        path@ == LOGICALS_PATH@ || path@ == LOCATION_PATH@,
    ensures
        requested(api_domain@, path@, r),
{
    proof {
        reveal_strlit("vpn/logicals");
        reveal_strlit("/vpn/location");
        vstd::utf8::is_ascii_chars_encode_utf8(path@);
    }
    match endpoint_url(api_domain, path) {
        Ok(address) => Ok(api_request(address)),
        Err(e) => Err(e),
    }
}

} // verus!
