use dynasty::addr::IpAddress;
use dynasty::sv::cloudflare::{Cloudflare, Error as CfError};
use dynasty::sv::{Error, Method, Payload, Provider, ResponseBody, ResultFields, Service};

fn provider(token: &str) -> Cloudflare {
    Cloudflare {
        token: token.to_string(),
        zone: "zone1".to_string(),
        record: "rec1".to_string(),
    }
}

fn full_payload() -> Payload {
    Payload {
        result: Some(ResultFields {
            name: Some("host.example.test".to_string()),
            kind: Some("A".to_string()),
            content: Some("203.0.113.5".to_string()),
        }),
    }
}

#[test]
fn request_builds_patch_with_headers_and_body() {
    let req = provider("tok123").request(IpAddress::V4(203, 0, 113, 5)).unwrap();
    assert_eq!(req.method, Method::Patch);
    assert_eq!(
        req.url,
        "https://api.cloudflare.com/client/v4/zones/zone1/dns_records/rec1"
    );
    assert_eq!(req.headers.len(), 2);
    assert_eq!(req.headers[0].0, "Authorization");
    assert_eq!(req.headers[0].1, "Bearer tok123");
    assert_eq!(req.headers[1].0, "Content-Type");
    assert_eq!(req.headers[1].1, "application/json");
    assert_eq!(req.body, "{\"content\":\"203.0.113.5\"}");
}

#[test]
fn request_carries_v6_text() {
    let req = provider("tok123")
        .request(IpAddress::V6(0x2001, 0xdb8, 0, 0, 0, 0, 0, 1))
        .unwrap();
    assert_eq!(req.body, "{\"content\":\"2001:db8::1\"}");
}

#[test]
fn request_rejects_unprintable_token() {
    let err = provider("bad\ntoken").request(IpAddress::V4(1, 2, 3, 4)).unwrap_err();
    assert_eq!(err, CfError::Header);
}

#[test]
fn request_accepts_odd_but_printable_token() {
    assert!(provider("t k\u{e9}n").request(IpAddress::V4(1, 2, 3, 4)).is_ok());
}

#[test]
fn report_accepts_full_confirmation() {
    let c = provider("tok123")
        .report(&ResponseBody::Json(full_payload()))
        .unwrap();
    assert_eq!(c.name, "host.example.test");
    assert_eq!(c.kind, "A");
    assert_eq!(c.content, "203.0.113.5");
}

#[test]
fn report_rejects_missing_name() {
    let mut p = full_payload();
    p.result.as_mut().unwrap().name = None;
    let err = provider("tok123").report(&ResponseBody::Json(p)).unwrap_err();
    assert_eq!(err, CfError::Report);
}

#[test]
fn report_rejects_missing_type() {
    let mut p = full_payload();
    p.result.as_mut().unwrap().kind = None;
    let err = provider("tok123").report(&ResponseBody::Json(p)).unwrap_err();
    assert_eq!(err, CfError::Report);
}

#[test]
fn report_rejects_missing_content() {
    let mut p = full_payload();
    p.result.as_mut().unwrap().content = None;
    let err = provider("tok123").report(&ResponseBody::Json(p)).unwrap_err();
    assert_eq!(err, CfError::Report);
}

#[test]
fn report_rejects_missing_result() {
    let err = provider("tok123")
        .report(&ResponseBody::Json(Payload { result: None }))
        .unwrap_err();
    assert_eq!(err, CfError::Report);
}

#[test]
fn report_rejects_unreadable_body() {
    let err = provider("tok123").report(&ResponseBody::Invalid).unwrap_err();
    assert_eq!(err, CfError::Decode);
}

#[test]
fn service_wraps_provider_errors() {
    let sv = Service::Cloudflare(provider("bad\ntoken"));
    let err = sv.request(IpAddress::V4(1, 2, 3, 4)).unwrap_err();
    assert_eq!(err, Error::Cloudflare(CfError::Header));
    let sv = Service::Cloudflare(provider("tok123"));
    let err = sv.report(&ResponseBody::Invalid).unwrap_err();
    assert_eq!(err, Error::Cloudflare(CfError::Decode));
    let c = sv.report(&ResponseBody::Json(full_payload())).unwrap();
    assert_eq!(c.kind, "A");
}
