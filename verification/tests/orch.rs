use dynasty::addr::IpAddress;
use dynasty::orch::{
    build_requests, count_failures, dispatch_plan, report_outcomes, HttpEvent, Outcome,
};
use dynasty::sv::cloudflare::{Cloudflare, Error as CfError};
use dynasty::sv::{Error, Payload, ResponseBody, ResultFields};

fn service(token: &str) -> dynasty::sv::Service {
    named_service(token, "rec1")
}

fn named_service(token: &str, record: &str) -> dynasty::sv::Service {
    dynasty::sv::Service::Cloudflare(Cloudflare {
        token: token.to_string(),
        zone: "zone1".to_string(),
        record: record.to_string(),
    })
}

fn full_payload() -> Payload {
    Payload {
        result: Some(ResultFields {
            name: Some("host.example.test".to_string()),
            kind: Some("A".to_string()),
            content: Some("203.0.113.5".to_string()),
        }),
    }
}

const ADDR: IpAddress = IpAddress::V4(203, 0, 113, 5);

#[test]
fn build_attempts_every_provider() {
    // Provider 2's construction fails; 1 and 3 are still attempted.
    let services = vec![service("tok1"), service("bad\ntok"), service("tok3")];
    let built = build_requests(&services, ADDR);
    assert_eq!(built.len(), 3);
    assert!(built[0].is_ok());
    assert_eq!(built[1].as_ref().unwrap_err(), &Error::Cloudflare(CfError::Header));
    assert!(built[2].is_ok());
}

#[test]
fn dispatch_keeps_provider_indices() {
    let services = vec![service("tok1"), service("bad\ntok"), service("tok3")];
    let built = build_requests(&services, ADDR);
    let (reqs, errs) = dispatch_plan(built, false);
    assert_eq!(reqs.len(), 3);
    assert_eq!(errs.len(), 3);
    assert!(reqs[0].is_some());
    assert!(reqs[1].is_none());
    assert!(reqs[2].is_some());
    assert!(errs[0].is_none());
    assert_eq!(errs[1], Some(Error::Cloudflare(CfError::Header)));
    assert!(errs[2].is_none());
}

#[test]
fn dispatch_pairs_each_request_with_its_own_provider() {
    // Provider 2 drops out; the surviving requests stay at the indices
    // of the providers whose records they carry.
    let services = vec![
        named_service("tok1", "rec-one"),
        named_service("bad\ntok", "rec-two"),
        named_service("tok3", "rec-three"),
    ];
    let built = build_requests(&services, ADDR);
    let (reqs, _errs) = dispatch_plan(built, false);
    assert!(reqs[0].as_ref().unwrap().url.ends_with("/dns_records/rec-one"));
    assert!(reqs[1].is_none());
    assert!(reqs[2].as_ref().unwrap().url.ends_with("/dns_records/rec-three"));
}

#[test]
fn dry_run_dispatches_nothing_but_surfaces_build_errors() {
    // Dry run with three providers: zero requests go out, yet the build
    // failure is still recorded.
    let services = vec![service("tok1"), service("bad\ntok"), service("tok3")];
    let built = build_requests(&services, ADDR);
    let (reqs, errs) = dispatch_plan(built, true);
    assert_eq!(reqs.len(), 3);
    assert!(reqs.iter().all(|r| r.is_none()));
    assert_eq!(errs[1], Some(Error::Cloudflare(CfError::Header)));
    assert!(errs[0].is_none() && errs[2].is_none());
}

#[test]
fn one_failing_provider_never_blocks_the_others() {
    // Provider 2 fails to build; 1 and 3 are dispatched and reported,
    // and the aggregate reflects the failure.
    let services = vec![service("tok1"), service("bad\ntok"), service("tok3")];
    let built = build_requests(&services, ADDR);
    let (reqs, errs) = dispatch_plan(built, false);
    let events = vec![
        reqs[0].as_ref().map(|_| HttpEvent::Response {
            status: 200,
            body: ResponseBody::Json(full_payload()),
        }),
        None,
        reqs[2].as_ref().map(|_| HttpEvent::Response {
            status: 200,
            body: ResponseBody::Json(full_payload()),
        }),
    ];
    let outcomes = report_outcomes(&services, &errs, &events);
    assert_eq!(outcomes.len(), 3);
    assert!(matches!(&outcomes[0], Outcome::Confirmed(c) if c.content == "203.0.113.5"));
    assert!(matches!(
        &outcomes[1],
        Outcome::Build(Error::Cloudflare(CfError::Header))
    ));
    assert!(matches!(&outcomes[2], Outcome::Confirmed(_)));
    assert_eq!(count_failures(&outcomes), 1);
}

#[test]
fn one_bad_response_leaves_siblings_confirmed() {
    // Removing a confirmation field fails that provider alone.
    let services = vec![service("tok1"), service("tok2")];
    let built = build_requests(&services, ADDR);
    let (_reqs, errs) = dispatch_plan(built, false);
    let mut bad = full_payload();
    bad.result.as_mut().unwrap().content = None;
    let events = vec![
        Some(HttpEvent::Response { status: 200, body: ResponseBody::Json(bad) }),
        Some(HttpEvent::Response { status: 200, body: ResponseBody::Json(full_payload()) }),
    ];
    let outcomes = report_outcomes(&services, &errs, &events);
    assert!(matches!(
        &outcomes[0],
        Outcome::Failed(Error::Cloudflare(CfError::Report))
    ));
    assert!(matches!(&outcomes[1], Outcome::Confirmed(_)));
    assert_eq!(count_failures(&outcomes), 1);
}

#[test]
fn transport_failures_are_provider_local() {
    let services = vec![service("tok1"), service("tok2"), service("tok3")];
    let built = build_requests(&services, ADDR);
    let (_reqs, errs) = dispatch_plan(built, false);
    let events = vec![
        Some(HttpEvent::Failed),
        Some(HttpEvent::Response { status: 502, body: ResponseBody::Invalid }),
        Some(HttpEvent::Response { status: 200, body: ResponseBody::Json(full_payload()) }),
    ];
    let outcomes = report_outcomes(&services, &errs, &events);
    assert!(matches!(&outcomes[0], Outcome::Failed(Error::Transport(None))));
    assert!(matches!(&outcomes[1], Outcome::Failed(Error::Transport(Some(502)))));
    assert!(matches!(&outcomes[2], Outcome::Confirmed(_)));
    assert_eq!(count_failures(&outcomes), 2);
}

#[test]
fn unreadable_success_body_is_a_report_failure() {
    let services = vec![service("tok1")];
    let built = build_requests(&services, ADDR);
    let (_reqs, errs) = dispatch_plan(built, false);
    let events = vec![Some(HttpEvent::Response { status: 204, body: ResponseBody::Invalid })];
    let outcomes = report_outcomes(&services, &errs, &events);
    assert!(matches!(
        &outcomes[0],
        Outcome::Failed(Error::Cloudflare(CfError::Decode))
    ));
}
