//! Addresses of resources, and where a redirect leads.

use http::uri::PathAndQuery;

use vstd::prelude::*;
use vstd::string::StringExecFns;

use crate::text;
use crate::types::{DownloadError, ErrorView};

verus! {

/// The parts of a URI that a download is steered by.
#[derive(Debug)]
pub struct Uri {
    pub scheme: Option<String>,
    pub host: Option<String>,
    pub port: Option<u16>,
    pub path_and_query: Option<String>,
}

/// A URI, with its texts as rows of characters.
pub struct UriView {
    pub scheme: Option<Seq<char>>,
    pub host: Option<Seq<char>>,
    pub port: Option<u16>,
    pub path_and_query: Option<Seq<char>>,
}

impl View for Uri {
    type V = UriView;

    open spec fn view(&self) -> UriView {
        UriView {
            scheme: text::optional_text(self.scheme),
            host: text::optional_text(self.host),
            port: self.port,
            path_and_query: text::optional_text(self.path_and_query),
        }
    }
}

impl Clone for Uri {
    fn clone(&self) -> (copy: Self)
        ensures
            copy == *self,
    {
        Uri {
            scheme: text::clone_optional(&self.scheme),
            host: text::clone_optional(&self.host),
            port: self.port,
            path_and_query: text::clone_optional(&self.path_and_query),
        }
    }
}

/// What parsing a text as a URI gives: its parts, or what is wrong with it.
pub uninterp spec fn parsed_uri(text: Seq<char>) -> Result<UriView, Seq<char>>;

/// Parsing of `Uri` in the `http` crate: the parts of the URI, or the message of its
/// error. Which texts are URIs, and how they come apart, is left to that crate.
#[verifier::external_body]
pub(crate) fn parse_uri(text: &str) -> (result: Result<Uri, String>)
    ensures
        match result {
            Ok(uri) => parsed_uri(text@) == Ok::<UriView, Seq<char>>(uri@),
            Err(message) => parsed_uri(text@) == Err::<UriView, Seq<char>>(message@),
        },
{
    match text.parse::<http::Uri>() {
        Ok(uri) => Ok(Uri {
            scheme: uri.scheme_str().map(|scheme| scheme.to_string()),
            host: uri.host().map(|host| host.to_string()),
            port: uri.port_u16(),
            path_and_query: uri.path_and_query().map(|path| path.as_str().to_string()),
        }),
        Err(e) => Err(e.to_string()),
    }
}

/// What parsing a text as a path with its query gives: the path, or what is wrong with
/// the text.
pub uninterp spec fn parsed_path(text: Seq<char>) -> Result<Seq<char>, Seq<char>>;

/// Parsing of `PathAndQuery` in the `http` crate: the path with its query, or the message
/// of the error. Which texts are paths is left to that crate.
#[verifier::external_body]
pub(crate) fn parse_path(text: &str) -> (result: Result<String, String>)
    ensures
        match result {
            Ok(path) => parsed_path(text@) == Ok::<Seq<char>, Seq<char>>(path@),
            Err(message) => parsed_path(text@) == Err::<Seq<char>, Seq<char>>(message@),
        },
{
    match text.parse::<PathAndQuery>() {
        Ok(path) => Ok(path.as_str().to_string()),
        Err(e) => Err(e.to_string()),
    }
}

/// The port that a URI leads to: its own, or else the usual one of its scheme.
pub open spec fn effective_port(uri: UriView) -> u16 {
    match uri.port {
        Some(port) => port,
        None => if uri.scheme == Some("http"@) {
            80
        } else {
            443
        },
    }
}

impl Uri {
    /// The port that the URI leads to: its own, or 80 for `http` and 443 for anything
    /// else.
    pub fn port_or_default(&self) -> (port: u16)
        ensures
            port == effective_port(self@),
    {
        match self.port {
            Some(port) => port,
            None => match &self.scheme {
                Some(scheme) => if text::equal(scheme.as_str(), "http") {
                    80
                } else {
                    443
                },
                None => 443,
            },
        }
    }
}

/// Where a redirect from `current` to `location` leads, where `as_uri` and `as_path` are
/// what parsing the location as a URI and as a path gives: to the location itself where
/// that is a URI with a scheme, and otherwise to the path that it names on the current
/// host.
pub open spec fn redirect_target(
    current: UriView,
    location: Seq<char>,
    as_uri: Result<UriView, Seq<char>>,
    as_path: Result<Seq<char>, Seq<char>>,
) -> Result<UriView, ErrorView> {
    if as_uri is Ok && as_uri->Ok_0.scheme is Some {
        Ok(as_uri->Ok_0)
    } else {
        match as_path {
            Err(message) => Err(
                ErrorView::ConnectionFailed(
                    "invalid redirect location '"@ + location + "': "@ + message,
                ),
            ),
            Ok(path) => if current.scheme is Some && current.host is None {
                Err(
                    ErrorView::ConnectionFailed(
                        "failed to construct redirect URI: authority missing"@,
                    ),
                )
            } else if current.scheme is None && current.host is Some {
                Err(
                    ErrorView::ConnectionFailed(
                        "failed to construct redirect URI: scheme missing"@,
                    ),
                )
            } else {
                Ok(UriView { path_and_query: Some(path), ..current })
            },
        }
    }
}

/// The parts of a parsed URI, or the characters of the error.
pub open spec fn uri_result(result: Result<Uri, String>) -> Result<UriView, Seq<char>> {
    match result {
        Ok(uri) => Ok(uri@),
        Err(message) => Err(message@),
    }
}

/// The characters of a parsed path, or of the error.
pub open spec fn path_result(result: Result<String, String>) -> Result<Seq<char>, Seq<char>> {
    match result {
        Ok(path) => Ok(path@),
        Err(message) => Err(message@),
    }
}

/// Resolves a redirect, where the location has been parsed both ways.
pub fn resolve_parsed(
    current: &Uri,
    location: &str,
    as_uri: Result<Uri, String>,
    as_path: Result<String, String>,
) -> (result: Result<Uri, DownloadError>)
    ensures
        ({
            let target = redirect_target(
                current@,
                location@,
                uri_result(as_uri),
                path_result(as_path),
            );
            match result {
                Ok(uri) => target == Ok::<UriView, ErrorView>(uri@),
                Err(e) => target == Err::<UriView, ErrorView>(e@),
            }
        }),
{
    if let Ok(uri) = as_uri {
        if uri.scheme.is_some() {
            return Ok(uri);
        }
    }
    match as_path {
        Err(e) => {
            let mut message = "invalid redirect location '".to_string();
            message.append(location);
            message.append("': ");
            message.append(e.as_str());
            Err(DownloadError::ConnectionFailed(message))
        },
        Ok(path) => {
            if current.scheme.is_some() && current.host.is_none() {
                return Err(
                    DownloadError::ConnectionFailed(
                        "failed to construct redirect URI: authority missing".to_string(),
                    ),
                );
            }
            if current.scheme.is_none() && current.host.is_some() {
                return Err(
                    DownloadError::ConnectionFailed(
                        "failed to construct redirect URI: scheme missing".to_string(),
                    ),
                );
            }
            let mut target = current.clone();
            target.path_and_query = Some(path);
            Ok(target)
        },
    }
}

/// Resolve a Location header value against the current URL.
pub fn resolve_redirect(current: &Uri, location: &str) -> (result: Result<Uri, DownloadError>)
    ensures
        ({
            let target = redirect_target(
                current@,
                location@,
                parsed_uri(location@),
                parsed_path(location@),
            );
            match result {
                Ok(uri) => target == Ok::<UriView, ErrorView>(uri@),
                Err(e) => target == Err::<UriView, ErrorView>(e@),
            }
        }),
{
    let as_uri = parse_uri(location);
    let as_path = parse_path(location);
    resolve_parsed(current, location, as_uri, as_path)
}

/// A redirect to a location without a scheme stays on the host and port that it comes
/// from.
pub proof fn relative_redirects_stay_on_their_host(
    current: UriView,
    location: Seq<char>,
    as_uri: Result<UriView, Seq<char>>,
    as_path: Result<Seq<char>, Seq<char>>,
)
    requires
        as_uri matches Ok(uri) ==> uri.scheme is None,
    ensures
        redirect_target(current, location, as_uri, as_path) matches Ok(target) ==> {
            &&& target.scheme == current.scheme
            &&& target.host == current.host
            &&& effective_port(target) == effective_port(current)
        },
{
}

/// A URI leads to the port that it names. Without one it leads to port 80 where its scheme
/// is `http`, and to port 443 in every other case.
pub proof fn ports_follow_the_scheme(uri: UriView)
    ensures
        uri.port matches Some(port) ==> effective_port(uri) == port,
        uri.port is None && uri.scheme == Some(seq!['h', 't', 't', 'p']) ==> effective_port(uri)
            == 80,
        uri.port is None && uri.scheme != Some(seq!['h', 't', 't', 'p']) ==> effective_port(uri)
            == 443,
{
    reveal_strlit("http");
    assert("http"@ =~= seq!['h', 't', 't', 'p']);
}

/// A location that is a URI of its own, with a scheme, is where the redirect leads, whatever
/// the URI that it comes from.
pub proof fn absolute_redirects_lead_to_their_location(
    current: UriView,
    location: Seq<char>,
    uri: UriView,
    as_path: Result<Seq<char>, Seq<char>>,
)
    requires
        uri.scheme is Some,
    ensures
        redirect_target(current, location, Ok(uri), as_path) == Ok::<UriView, ErrorView>(uri),
{
}

/// A location without a scheme leads to the path that it names, and nothing else of the URI
/// that it comes from changes. It fails exactly where it names no path, or where that URI
/// has only one of scheme and host.
pub proof fn relative_redirects_change_the_path_alone(
    current: UriView,
    location: Seq<char>,
    as_uri: Result<UriView, Seq<char>>,
    as_path: Result<Seq<char>, Seq<char>>,
)
    requires
        as_uri matches Ok(uri) ==> uri.scheme is None,
    ensures
        ({
            let target = redirect_target(current, location, as_uri, as_path);
            &&& target is Ok <==> as_path is Ok && current.scheme is Some == current.host is Some
            &&& target matches Ok(uri) ==> {
                &&& uri.path_and_query == Some(as_path->Ok_0)
                &&& uri.scheme == current.scheme
                &&& uri.host == current.host
                &&& uri.port == current.port
            }
            &&& target matches Err(error) ==> error is ConnectionFailed
        }),
{
}

} // verus!
