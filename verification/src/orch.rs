//! The update orchestrator: one cycle's phases after the address has
//! been resolved.
//!
//! A cycle runs `Resolving -> (Aborted | Building) -> Dispatching ->
//! Reporting -> Done`.  Resolving is the resolver module's business, and
//! a resolution failure aborts the cycle before any provider is touched.
//! The phases here keep every provider isolated: a failure in one
//! provider's request construction, transport or reporting never blocks
//! another, and results are paired back to providers by configuration
//! order, not by completion order.

use vstd::prelude::*;

use crate::sv::{Confirmation, Error, Provider, ResponseBody, Service, UpdateRequest};
use crate::addr::IpAddress;

verus! {

/// What the transport did with one dispatched request: nothing came
/// back, or a response with this status and body.
#[derive(Debug)]
pub enum HttpEvent {
    Failed,
    Response { status: u16, body: ResponseBody },
}

/// One provider's outcome for a cycle.
#[derive(Debug)]
pub enum Outcome {
    /// Request construction failed; the provider was skipped.
    Build(Error),
    /// Dry run: the request was built for validation but never sent.
    DryRun,
    /// The provider confirmed the update.
    Confirmed(Confirmation),
    /// Transport or reporting failed, for this provider alone.
    Failed(Error),
}

/// Is a success HTTP status: the request took effect.
pub open spec fn is_success_status(status: u16) -> bool {
    200 <= status < 300
}

/// Building: constructs an update request for every configured provider,
/// in configuration order.  Construction is attempted for all providers
/// whatever happens to any of them.
pub fn build_requests(services: &Vec<Service>, addr: IpAddress) -> (built: Vec<
    Result<UpdateRequest, Error>,
>)
    ensures
        built@.len() == services@.len(),
        forall|i: int|
            0 <= i < services@.len() ==> services@[i].request_post(addr, #[trigger] built@[i]),
{
    let mut built: Vec<Result<UpdateRequest, Error>> = Vec::new();
    let mut i: usize = 0;
    while i < services.len()
        invariant
            i <= services@.len(),
            built@.len() == i,
            forall|j: int|
                0 <= j < i ==> services@[j].request_post(addr, #[trigger] built@[j]),
        decreases services@.len() - i,
    {
        built.push(services[i].request(addr));
        i = i + 1;
    }
    built
}

/// How one provider's build result must appear in the dispatch plan.
pub open spec fn plan_entry_rel(
    b: Result<UpdateRequest, Error>,
    req: Option<UpdateRequest>,
    err: Option<Error>,
    dry_run: bool,
) -> bool {
    match b {
        Ok(q) => err is None && if dry_run {
            req is None
        } else {
            req == Some(q)
        },
        Err(e) => req is None && err == Some(e),
    }
}

/// Dispatching: turns the build results into the set of requests that
/// go on the wire, keeping each at its provider's index.  On a dry run
/// nothing is dispatched, but every build failure stays recorded.
pub fn dispatch_plan(built: Vec<Result<UpdateRequest, Error>>, dry_run: bool) -> (r: (
    Vec<Option<UpdateRequest>>,
    Vec<Option<Error>>,
))
    ensures
        r.0@.len() == built@.len() && r.1@.len() == built@.len(),
        forall|i: int|
            0 <= i < built@.len() ==> plan_entry_rel(
                #[trigger] built@[i],
                r.0@[i],
                r.1@[i],
                dry_run,
            ),
        dry_run ==> forall|i: int| 0 <= i < built@.len() ==> r.0@[i] is None,
{
    let ghost orig = built@;
    let n = built.len();
    let mut built = built;
    let mut reqs_rev: Vec<Option<UpdateRequest>> = Vec::new();
    let mut errs_rev: Vec<Option<Error>> = Vec::new();
    while built.len() > 0
        invariant
            built@ =~= orig.take(built@.len() as int),
            built@.len() + reqs_rev@.len() == n == orig.len(),
            errs_rev@.len() == reqs_rev@.len(),
            forall|j: int|
                0 <= j < reqs_rev@.len() ==> plan_entry_rel(
                    #[trigger] orig[n - 1 - j],
                    reqs_rev@[j],
                    errs_rev@[j],
                    dry_run,
                ),
        decreases built@.len(),
    {
        let ghost m = built@.len();
        let last = built.pop().unwrap();
        proof {
            assert(orig.take(m as int).last() == orig[m - 1]);
            assert(orig.take(m as int).drop_last() =~= orig.take(m - 1));
        }
        match last {
            Ok(q) => {
                if dry_run {
                    reqs_rev.push(None);
                } else {
                    reqs_rev.push(Some(q));
                }
                errs_rev.push(None);
            },
            Err(e) => {
                reqs_rev.push(None);
                errs_rev.push(Some(e));
            },
        }
    }
    let mut reqs: Vec<Option<UpdateRequest>> = Vec::new();
    let mut errs: Vec<Option<Error>> = Vec::new();
    while reqs_rev.len() > 0
        invariant
            reqs_rev@.len() + reqs@.len() == n == orig.len(),
            errs_rev@.len() == reqs_rev@.len(),
            errs@.len() == reqs@.len(),
            forall|j: int|
                0 <= j < reqs_rev@.len() ==> plan_entry_rel(
                    #[trigger] orig[n - 1 - j],
                    reqs_rev@[j],
                    errs_rev@[j],
                    dry_run,
                ),
            forall|k: int|
                0 <= k < reqs@.len() ==> plan_entry_rel(
                    #[trigger] orig[k],
                    reqs@[k],
                    errs@[k],
                    dry_run,
                ),
        decreases reqs_rev@.len(),
    {
        let ghost j = reqs_rev@.len() - 1;
        let q = reqs_rev.pop().unwrap();
        let e = errs_rev.pop().unwrap();
        proof {
            assert(orig[n - 1 - j] == orig[reqs@.len() as int]);
        }
        reqs.push(q);
        errs.push(e);
    }
    proof {
        if dry_run {
            assert forall|i: int| 0 <= i < orig.len() implies reqs@[i] is None by {
                assert(plan_entry_rel(orig[i], reqs@[i], errs@[i], dry_run));
            }
        }
    }
    (reqs, errs)
}

/// How one provider's cycle outcome follows from what was recorded for
/// it: its build failure, or what the transport brought back.
pub open spec fn outcome_rel(
    sv: Service,
    err: Option<Error>,
    ev: Option<HttpEvent>,
    o: Outcome,
) -> bool {
    match err {
        Some(e) => o matches Outcome::Build(b) && b == e,
        None => match ev {
            None => o is DryRun,
            Some(HttpEvent::Failed) => o matches Outcome::Failed(f) && f == Error::Transport(
                None,
            ),
            Some(HttpEvent::Response { status, body }) => if !is_success_status(status) {
                o matches Outcome::Failed(f) && f == Error::Transport(Some(status))
            } else {
                match o {
                    Outcome::Confirmed(c) => sv.report_post(body, Ok(c)),
                    Outcome::Failed(f) => sv.report_post(body, Err(f)),
                    _ => false,
                }
            },
        },
    }
}

/// Reporting: validates each provider's response and settles every
/// provider's outcome for the cycle, independently of all others.
///
/// `errs` is the build record and `events` the transport's answers, both
/// at provider indices; a provider has an event exactly when its request
/// was dispatched.
pub fn report_outcomes(services: &Vec<Service>, errs: &Vec<Option<Error>>, events: &Vec<
    Option<HttpEvent>,
>) -> (outcomes: Vec<Outcome>)
    requires
        errs@.len() == services@.len(),
        events@.len() == services@.len(),
    ensures
        outcomes@.len() == services@.len(),
        forall|i: int|
            0 <= i < services@.len() ==> outcome_rel(
                services@[i],
                errs@[i],
                #[trigger] events@[i],
                outcomes@[i],
            ),
{
    let mut outcomes: Vec<Outcome> = Vec::new();
    let mut i: usize = 0;
    while i < services.len()
        invariant
            errs@.len() == services@.len(),
            events@.len() == services@.len(),
            i <= services@.len(),
            outcomes@.len() == i,
            forall|j: int|
                0 <= j < i ==> outcome_rel(
                    services@[j],
                    errs@[j],
                    #[trigger] events@[j],
                    outcomes@[j],
                ),
        decreases services@.len() - i,
    {
        let o: Outcome = match &errs[i] {
            Some(e) => Outcome::Build(*e),
            None => match &events[i] {
                None => Outcome::DryRun,
                Some(HttpEvent::Failed) => Outcome::Failed(Error::Transport(None)),
                Some(HttpEvent::Response { status, body }) => {
                    let status = *status;
                    if !(200 <= status && status < 300) {
                        Outcome::Failed(Error::Transport(Some(status)))
                    } else {
                        match services[i].report(body) {
                            Ok(c) => Outcome::Confirmed(c),
                            Err(e) => Outcome::Failed(e),
                        }
                    }
                },
            },
        };
        outcomes.push(o);
        i = i + 1;
    }
    outcomes
}

/// Is this outcome a failure for the cycle's aggregate status?
pub open spec fn is_failure(o: Outcome) -> bool {
    o is Build || o is Failed
}

/// How many of the cycle's outcomes are failures.
pub open spec fn failure_count(outcomes: Seq<Outcome>) -> int
    decreases outcomes.len(),
{
    if outcomes.len() == 0 {
        0
    } else {
        failure_count(outcomes.drop_last()) + if is_failure(outcomes.last()) {
            1int
        } else {
            0int
        }
    }
}

proof fn lemma_failure_count_nonneg(outcomes: Seq<Outcome>)
    ensures
        failure_count(outcomes) >= 0,
    decreases outcomes.len(),
{
    if outcomes.len() > 0 {
        lemma_failure_count_nonneg(outcomes.drop_last());
    }
}

/// The cycle's aggregate outcome reflects every failure: one failing
/// provider is enough to make the cycle's failure count positive,
/// whatever the other providers' outcomes are.
pub proof fn lemma_failure_counted(outcomes: Seq<Outcome>, i: int)
    requires
        0 <= i < outcomes.len(),
        is_failure(outcomes[i]),
    ensures
        failure_count(outcomes) >= 1,
    decreases outcomes.len(),
{
    lemma_failure_count_nonneg(outcomes.drop_last());
    if i < outcomes.len() - 1 {
        lemma_failure_counted(outcomes.drop_last(), i);
    }
}

/// Counts the providers whose outcome is a failure.  The aggregate
/// status of a cycle reflects every failure, while failed providers
/// never block the successful ones.
pub fn count_failures(outcomes: &Vec<Outcome>) -> (n: usize)
    ensures
        n == failure_count(outcomes@),
{
    let mut n: usize = 0;
    let mut i: usize = 0;
    proof {
        assert(outcomes@.take(0) =~= Seq::<Outcome>::empty());
    }
    while i < outcomes.len()
        invariant
            i <= outcomes@.len(),
            n <= i,
            n == failure_count(outcomes@.take(i as int)),
        decreases outcomes@.len() - i,
    {
        proof {
            assert(outcomes@.take(i as int + 1).drop_last() =~= outcomes@.take(i as int));
            assert(outcomes@.take(i as int + 1).last() == outcomes@[i as int]);
        }
        let failed = match &outcomes[i] {
            Outcome::Build(_) => true,
            Outcome::Failed(_) => true,
            _ => false,
        };
        if failed {
            n = n + 1;
        }
        i = i + 1;
    }
    proof {
        assert(outcomes@.take(outcomes@.len() as int) =~= outcomes@);
    }
    n
}

} // verus!
