//! The Cloudflare DNS provider: building record-update requests against
//! its REST API and validating its responses.

use vstd::prelude::*;
use vstd::string::StringExecFns;

use crate::addr::{ip_text, format_ip, IpAddress};
use crate::sv::{
    payload_confirmed, Confirmation, Method, Payload, Provider, ResponseBody, UpdateRequest,
};

verus! {

/// Cloudflare provider configuration: the API token and the identifiers
/// of the managed record.
#[derive(Debug)]
pub struct Cloudflare {
    /// API token.
    pub token: String,
    /// Zone identifier.
    pub zone: String,
    /// Managed domain record identifier.
    pub record: String,
}

/// An error caused by the Cloudflare provider.
#[derive(Clone, Copy, Debug, PartialEq, Eq, Structural)]
pub enum Error {
    /// The API token cannot stand in an `Authorization` header.
    Header,
    /// The update endpoint text is not a well-formed URL.
    Url,
    /// The response body could not be read as a JSON object.
    Decode,
    /// The response lacked an expected confirmation field.
    Report,
}

/// The update endpoint for a zone and record.
pub open spec fn cf_url_text(zone: Seq<char>, record: Seq<char>) -> Seq<char> {
    "https://api.cloudflare.com/client/v4/zones/"@ + zone + "/dns_records/"@ + record
}

/// The `Authorization` header value for an API token.
pub open spec fn bearer_text(token: Seq<char>) -> Seq<char> {
    "Bearer "@ + token
}

/// The JSON body carrying the resolved address.  Address text never
/// needs escaping: it is digits, hexadecimal letters, dots and colons.
pub open spec fn json_body_text(addr: IpAddress) -> Seq<char> {
    "{\"content\":\""@ + ip_text(addr) + "\"}"@
}

#[verifier::external_type_specification]
#[verifier::external_body]
pub struct ExUrl(url::Url);

#[verifier::external_type_specification]
#[verifier::external_body]
pub struct ExUrlParseError(url::ParseError);

/// Whether `s` is a well-formed URL.
pub uninterp spec fn url_ok(s: Seq<char>) -> bool;

/// Relies on url::Url::parse: whether text parses as a URL is a function
/// of the text alone.
#[verifier::external_body]
fn parse_url(s: &str) -> (r: Result<url::Url, url::ParseError>)
    ensures
        (r is Ok) == url_ok(s@),
{
    url::Url::parse(s)
}

/// May `c` stand in an HTTP header value?  Horizontal tab, or anything
/// at or above the space character other than delete.
pub open spec fn is_header_value_char(c: char) -> bool {
    ||| c == '\t'
    ||| ((c as u32) >= 32 && (c as u32) != 127)
}

/// May the text `s` stand in an HTTP header value?
pub open spec fn is_header_value_text(s: Seq<char>) -> bool {
    forall|i: int| 0 <= i < s.len() ==> is_header_value_char(#[trigger] s[i])
}

#[verifier::external_type_specification]
#[verifier::external_body]
pub struct ExHeaderValue(http::header::HeaderValue);

#[verifier::external_type_specification]
#[verifier::external_body]
pub struct ExInvalidHeaderValue(http::header::InvalidHeaderValue);

/// Relies on http::header::HeaderValue::from_str: it accepts exactly the
/// strings whose bytes are horizontal tab or lie in 32..=255 without 127;
/// in UTF-8 that holds of a string's bytes exactly when it holds of the
/// value of each of its characters.
#[verifier::external_body]
fn parse_header_value(s: &str) -> (r: Result<
    http::header::HeaderValue,
    http::header::InvalidHeaderValue,
>)
    ensures
        (r is Ok) == is_header_value_text(s@),
{
    http::header::HeaderValue::from_str(s)
}

impl Provider for Cloudflare {
    type Error = Error;

    /// Request construction succeeds exactly when the endpoint text is a
    /// well-formed URL and the token can stand in a header; the request
    /// is then the `PATCH` of the address to the record's endpoint.
    open spec fn request_post(&self, addr: IpAddress, r: Result<UpdateRequest, Error>) -> bool {
        let url = cf_url_text(self.zone@, self.record@);
        let auth = bearer_text(self.token@);
        match r {
            Ok(req) => {
                &&& url_ok(url)
                &&& is_header_value_text(auth)
                &&& req.method is Patch
                &&& req.url@ == url
                &&& req.headers@.len() == 2
                &&& req.headers@[0].0@ == "Authorization"@
                &&& req.headers@[0].1@ == auth
                &&& req.headers@[1].0@ == "Content-Type"@
                &&& req.headers@[1].1@ == "application/json"@
                &&& req.body@ == json_body_text(addr)
            },
            Err(Error::Url) => !url_ok(url),
            Err(Error::Header) => url_ok(url) && !is_header_value_text(auth),
            Err(_) => false,
        }
    }

    /// Reporting yields the confirmation fields exactly when the body is
    /// a JSON object holding all of them; an unreadable body and a
    /// missing field are distinct errors.
    open spec fn report_post(&self, body: ResponseBody, r: Result<Confirmation, Error>) -> bool {
        match body {
            ResponseBody::Invalid => r == Err::<Confirmation, Error>(Error::Decode),
            ResponseBody::Json(p) => if payload_confirmed(p) {
                &&& r matches Ok(c)
                &&& p.result matches Some(f)
                &&& f.name matches Some(n) && c.name@ == n@
                &&& f.kind matches Some(k) && c.kind@ == k@
                &&& f.content matches Some(t) && c.content@ == t@
            } else {
                r == Err::<Confirmation, Error>(Error::Report)
            },
        }
    }

    fn request(&self, addr: IpAddress) -> (r: Result<UpdateRequest, Error>) {
        let mut url = String::new();
        url.append("https://api.cloudflare.com/client/v4/zones/");
        url.append(self.zone.as_str());
        url.append("/dns_records/");
        url.append(self.record.as_str());
        proof {
            assert(url@ =~= cf_url_text(self.zone@, self.record@));
        }
        if parse_url(url.as_str()).is_err() {
            return Err(Error::Url);
        }
        let mut auth = String::new();
        auth.append("Bearer ");
        auth.append(self.token.as_str());
        proof {
            assert(auth@ =~= bearer_text(self.token@));
        }
        if parse_header_value(auth.as_str()).is_err() {
            return Err(Error::Header);
        }
        let mut body = String::new();
        body.append("{\"content\":\"");
        let addr_text = format_ip(&addr);
        body.append(addr_text.as_str());
        body.append("\"}");
        proof {
            assert(body@ =~= json_body_text(addr));
        }
        let mut headers: Vec<(String, String)> = Vec::new();
        headers.push((String::from_str("Authorization"), auth));
        headers.push((String::from_str("Content-Type"), String::from_str("application/json")));
        Ok(UpdateRequest { method: Method::Patch, url, headers, body })
    }

    fn report(&self, body: &ResponseBody) -> (r: Result<Confirmation, Error>) {
        match body {
            ResponseBody::Invalid => Err(Error::Decode),
            ResponseBody::Json(p) => match &p.result {
                None => Err(Error::Report),
                Some(f) => match (&f.name, &f.kind, &f.content) {
                    (Some(n), Some(k), Some(t)) => Ok(
                        Confirmation { name: n.clone(), kind: k.clone(), content: t.clone() },
                    ),
                    _ => Err(Error::Report),
                },
            },
        }
    }
}

} // verus!
