//! DNS provider services: the provider capability contract, the closed
//! set of provider implementations, and the data carried between a
//! provider and the update cycle.

use vstd::prelude::*;

use crate::addr::IpAddress;

pub mod cloudflare;

verus! {

/// The HTTP method of an update request.  The providers implemented so
/// far only patch existing records.
#[derive(Clone, Copy, Debug, PartialEq, Eq, Structural)]
pub enum Method {
    Patch,
}

/// An update request, as plain data: method, URL, headers and body.
/// A pure function of the provider configuration and the resolved
/// address; executing it is the caller's business.
#[derive(Debug)]
pub struct UpdateRequest {
    pub method: Method,
    pub url: String,
    pub headers: Vec<(String, String)>,
    pub body: String,
}

/// A provider's response body, after the transport has read it: either
/// not a JSON object at all, or the fields the confirmation may carry.
#[derive(Debug)]
pub enum ResponseBody {
    Invalid,
    Json(Payload),
}

/// The parts of a provider response that reporting reads.  A missing
/// field is as telling as a present one, so each is optional.
#[derive(Debug)]
pub struct Payload {
    pub result: Option<ResultFields>,
}

/// The confirmation fields inside a response's `result` object.
#[derive(Debug)]
pub struct ResultFields {
    pub name: Option<String>,
    pub kind: Option<String>,
    pub content: Option<String>,
}

/// A validated update confirmation: the record's name, type and content
/// as the provider reported them.
#[derive(Debug, PartialEq, Eq)]
pub struct Confirmation {
    pub name: String,
    pub kind: String,
    pub content: String,
}

/// Does `p` hold every confirmation field that reporting demands?
pub open spec fn payload_confirmed(p: Payload) -> bool {
    &&& p.result matches Some(f)
    &&& f.name is Some
    &&& f.kind is Some
    &&& f.content is Some
}

/// An error caused by a service.
#[derive(Clone, Copy, Debug, PartialEq, Eq, Structural)]
pub enum Error {
    /// The request failed in transport: no response (`None`), or a
    /// response with this failing HTTP status.
    Transport(Option<u16>),
    /// Cloudflare service error.
    Cloudflare(cloudflare::Error),
}

/// Service trait: the capability set a DNS provider offers the update
/// cycle.  Each implementation fixes what its methods must return through
/// the two spec functions.
pub trait Provider {
    type Error;

    /// What `request` may return for this provider and address.
    spec fn request_post(&self, addr: IpAddress, r: Result<UpdateRequest, Self::Error>) -> bool;

    /// What `report` may return for this provider and response body.
    spec fn report_post(&self, body: ResponseBody, r: Result<Confirmation, Self::Error>) -> bool;

    /// Prepares an update request carrying `addr` using the provider's
    /// API.  Pure: no request is sent.
    fn request(&self, addr: IpAddress) -> (r: Result<UpdateRequest, Self::Error>)
        ensures
            self.request_post(addr, r),
    ;

    /// Validates and reports on a response body from the provider.
    fn report(&self, body: &ResponseBody) -> (r: Result<Confirmation, Self::Error>)
        ensures
            self.report_post(*body, r),
    ;
}

/// Service kind: the closed set of DNS providers.
#[derive(Debug)]
pub enum Service {
    Cloudflare(cloudflare::Cloudflare),
}

/// A successful response that carries every confirmation field is
/// reported without error, whichever provider reports it; a body that
/// lacks one, or that is no JSON object at all, is reported as an
/// error.
pub proof fn lemma_confirmation_reporting(
    sv: Service,
    body: ResponseBody,
    r: Result<Confirmation, Error>,
)
    requires
        sv.report_post(body, r),
    ensures
        (body matches ResponseBody::Json(p) && payload_confirmed(p)) ==> r is Ok,
        (body matches ResponseBody::Json(p) && !payload_confirmed(p)) ==> r is Err,
        body is Invalid ==> r is Err,
{
    match sv {
        Service::Cloudflare(_) => {},
    }
}

impl Provider for Service {
    type Error = Error;

    open spec fn request_post(&self, addr: IpAddress, r: Result<UpdateRequest, Error>) -> bool {
        match *self {
            Service::Cloudflare(ref sv) => match r {
                Ok(req) => sv.request_post(addr, Ok(req)),
                Err(Error::Cloudflare(e)) => sv.request_post(addr, Err(e)),
                Err(_) => false,
            },
        }
    }

    open spec fn report_post(&self, body: ResponseBody, r: Result<Confirmation, Error>) -> bool {
        match *self {
            Service::Cloudflare(ref sv) => match r {
                Ok(c) => sv.report_post(body, Ok(c)),
                Err(Error::Cloudflare(e)) => sv.report_post(body, Err(e)),
                Err(_) => false,
            },
        }
    }

    fn request(&self, addr: IpAddress) -> (r: Result<UpdateRequest, Error>) {
        match self {
            Service::Cloudflare(sv) => match sv.request(addr) {
                Ok(req) => Ok(req),
                Err(e) => Err(Error::Cloudflare(e)),
            },
        }
    }

    fn report(&self, body: &ResponseBody) -> (r: Result<Confirmation, Error>) {
        match self {
            Service::Cloudflare(sv) => match sv.report(body) {
                Ok(c) => Ok(c),
                Err(e) => Err(Error::Cloudflare(e)),
            },
        }
    }
}

} // verus!
