//! The order of a certificate: the authority is asked to validate the domain
//! until it has, and then for the certificate.
use vstd::prelude::*;

verus! {

/// How long to wait between two questions whether the authority is done, in
/// milliseconds.
pub const POLL_MILLIS: u64 = 5000;

/// What is to be done next for a certificate.
#[derive(Debug, Clone, Copy, PartialEq, Eq, Structural)]
pub enum CertStep {
    /// Ask whether the authority has validated the domain.
    Confirm,
    /// Fetch the authorizations, and take the challenge of the first.
    Authorize,
    /// Serve the proof of the challenge.
    Serve,
    /// Have the challenge validated.
    Validate,
    /// Stop serving the proof.
    StopServing,
    /// Refresh the order.
    Refresh,
    /// Finalize the order with a new private key.
    Finalize,
    /// Download the certificate.
    Download,
    /// Store the certificate.
    StoreCertificate,
    /// Store the private key.
    StorePrivateKey,
}

/// How a step came out.
#[derive(Debug, PartialEq, Eq)]
pub enum Outcome {
    /// It was done. `Confirm` comes out so where the domain is not validated
    /// yet.
    Done,
    /// The authority has validated the domain. Only `Confirm` comes out so.
    Confirmed,
    /// It failed, and why.
    Failed(String),
}

/// The step after one that did not fail, if any.
pub open spec fn step_after(step: CertStep, confirmed: bool) -> Option<CertStep> {
    match step {
        CertStep::Confirm => Some(
            if confirmed {
                CertStep::Finalize
            } else {
                CertStep::Authorize
            },
        ),
        CertStep::Authorize => Some(CertStep::Serve),
        CertStep::Serve => Some(CertStep::Validate),
        CertStep::Validate => Some(CertStep::StopServing),
        CertStep::StopServing => Some(CertStep::Refresh),
        CertStep::Refresh => Some(CertStep::Confirm),
        CertStep::Finalize => Some(CertStep::Download),
        CertStep::Download => Some(CertStep::StoreCertificate),
        CertStep::StoreCertificate => Some(CertStep::StorePrivateKey),
        CertStep::StorePrivateKey => None,
    }
}

/// Decides what to do after a step: the next one, or nothing more. The order
/// ends with the first step that fails.
pub fn next_step(step: CertStep, outcome: Outcome) -> (next: Result<Option<CertStep>, String>)
    ensures
        match outcome {
            Outcome::Failed(reason) => next matches Err(e) && e == reason,
            Outcome::Confirmed => next matches Ok(n) && n == step_after(step, true),
            Outcome::Done => next matches Ok(n) && n == step_after(step, false),
        },
{
    let confirmed = match outcome {
        Outcome::Failed(reason) => {
            return Err(reason);
        },
        Outcome::Confirmed => true,
        Outcome::Done => false,
    };
    Ok(
        match step {
            CertStep::Confirm => Some(
                if confirmed {
                    CertStep::Finalize
                } else {
                    CertStep::Authorize
                },
            ),
            CertStep::Authorize => Some(CertStep::Serve),
            CertStep::Serve => Some(CertStep::Validate),
            CertStep::Validate => Some(CertStep::StopServing),
            CertStep::StopServing => Some(CertStep::Refresh),
            CertStep::Refresh => Some(CertStep::Confirm),
            CertStep::Finalize => Some(CertStep::Download),
            CertStep::Download => Some(CertStep::StoreCertificate),
            CertStep::StoreCertificate => Some(CertStep::StorePrivateKey),
            CertStep::StorePrivateKey => None,
        },
    )
}

/// `run` is a course of steps from the first on, each with whether the
/// authority was found to have validated the domain.
pub open spec fn is_run(run: Seq<(CertStep, bool)>) -> bool {
    &&& run.len() > 0 ==> run[0].0 == CertStep::Confirm
    &&& forall|i: int|
        1 <= i < run.len() ==> step_after(run[i - 1].0, run[i - 1].1) == Some(
            (#[trigger] run[i]).0,
        )
}

/// The step is one of those that obtain the certificate.
pub open spec fn obtains(step: CertStep) -> bool {
    step is Finalize || step is Download || step is StoreCertificate || step is StorePrivateKey
}

/// Nothing is done to obtain the certificate unless the authority has confirmed
/// before that it validated the domain.
pub proof fn law_confirmed_before_obtained(run: Seq<(CertStep, bool)>, i: int)
    requires
        is_run(run),
        0 <= i < run.len(),
        obtains(run[i].0),
    ensures
        exists|j: int| 0 <= j < i && #[trigger] run[j] == (CertStep::Confirm, true),
    decreases i,
{
    assert(i > 0);
    assert(step_after(run[i - 1].0, run[i - 1].1) == Some(run[i].0));
    if obtains(run[i - 1].0) {
        law_confirmed_before_obtained(run, i - 1);
    } else {
        assert(run[i - 1] == (CertStep::Confirm, true));
    }
}

/// The authority is asked again only after the proof of the last challenge has
/// been served, validated and withdrawn, in this order.
pub proof fn law_proof_is_withdrawn(run: Seq<(CertStep, bool)>, i: int)
    requires
        is_run(run),
        0 < i < run.len(),
        run[i].0 == CertStep::Confirm,
    ensures
        i >= 6,
        run[i - 4].0 == CertStep::Serve,
        run[i - 3].0 == CertStep::Validate,
        run[i - 2].0 == CertStep::StopServing,
        run[i - 6] == (CertStep::Confirm, false),
{
    assert(run[i].0 == CertStep::Confirm);
    assert(run[i - 1].0 == CertStep::Refresh);
    assert(run[i - 2].0 == CertStep::StopServing);
    assert(run[i - 3].0 == CertStep::Validate);
    assert(run[i - 4].0 == CertStep::Serve);
    assert(run[i - 5].0 == CertStep::Authorize);
    assert(run[i - 6].0 == CertStep::Confirm);
}

/// The private key is stored last, right after the certificate.
pub proof fn law_private_key_is_stored_last(run: Seq<(CertStep, bool)>, i: int)
    requires
        is_run(run),
        0 <= i < run.len(),
        run[i].0 == CertStep::StorePrivateKey,
    ensures
        i == run.len() - 1,
        i > 0,
        run[i - 1].0 == CertStep::StoreCertificate,
{
    if i + 1 < run.len() {
        assert(step_after(run[i].0, run[i].1) == Some(run[i + 1].0));
    }
    assert(i > 0);
    assert(step_after(run[i - 1].0, run[i - 1].1) == Some(run[i].0));
}

/// What comes after a step, by what comes: each step has its place.
pub proof fn law_steps_follow(
    step: CertStep,
    outcome: Outcome,
    next: Result<Option<CertStep>, String>,
)
    requires
        call_ensures(next_step, (step, outcome), next),
    ensures
        match next {
            Err(reason) => outcome == Outcome::Failed(reason),
            Ok(None) => !(outcome is Failed) && step is StorePrivateKey,
            Ok(Some(n)) => !(outcome is Failed) && match n {
                CertStep::Confirm => step is Refresh,
                CertStep::Authorize => step is Confirm && outcome is Done,
                CertStep::Serve => step is Authorize,
                CertStep::Validate => step is Serve,
                CertStep::StopServing => step is Validate,
                CertStep::Refresh => step is StopServing,
                CertStep::Finalize => step is Confirm && outcome is Confirmed,
                CertStep::Download => step is Finalize,
                CertStep::StoreCertificate => step is Download,
                CertStep::StorePrivateKey => step is StoreCertificate,
            },
        },
{
}

/// The steps of a course are those that are decided.
pub proof fn law_course_is_decided(
    step: CertStep,
    confirmed: bool,
    next: Result<Option<CertStep>, String>,
)
    requires
        call_ensures(
            next_step,
            (
                step,
                if confirmed {
                    Outcome::Confirmed
                } else {
                    Outcome::Done
                },
            ),
            next,
        ),
    ensures
        next == Ok::<Option<CertStep>, String>(step_after(step, confirmed)),
{
}

/// The authority is asked every five seconds.
pub proof fn law_authority_is_asked()
    ensures
        POLL_MILLIS == 5 * 1000,
{
}

} // verus!
