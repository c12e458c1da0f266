//! The safe apply flow: validate, apply, verify connectivity, then commit
//! or roll back.
//!
//! `SafeApply` holds the decisions; its caller performs each action it
//! names (pinging, applying the changes, deleting routes) and reports what
//! came of it.
//! 1. Validate: connectivity must be there before anything changes (a
//!    dry run skips the probe and changes nothing).
//! 2. Apply the changes, after a snapshot of the managed routes.
//! 3. Verify connectivity, within a timeout.
//! 4. Commit, or roll back to the snapshot: delete the routes added since
//!    and add again those deleted since.

use vstd::prelude::*;

use crate::argv::{lit, push_clone, push_lit, views};
use crate::text::push_str;

verus! {

/// Result of a safe apply operation.
#[derive(Debug)]
pub enum ApplyResult {
    /// Changes applied and verified.
    Success,
    /// Validation failed; nothing was changed.
    ValidationFailed(String),
    /// Connectivity verification failed; the changes were rolled back.
    VerificationFailed(String),
    /// Applying failed; the changes were rolled back.
    ApplyFailed { error: String, rollback_success: bool },
}

/// Safe apply configuration.
#[derive(Debug, Clone)]
pub struct SafeApplyConfig {
    /// Timeout for the connectivity verification, in seconds.
    pub verify_timeout_secs: u64,
    /// Ping target for connectivity checks.
    pub verify_target: String,
    /// Validate only; apply nothing.
    pub dry_run: bool,
}

impl Default for SafeApplyConfig {
    fn default() -> (c: Self)
        ensures
            c.verify_timeout_secs == 10,
            c.verify_target@ == "8.8.8.8"@,
            !c.dry_run,
    {
        SafeApplyConfig { verify_timeout_secs: 10, verify_target: lit("8.8.8.8"), dry_run: false }
    }
}

/// Why changes are being rolled back.
#[derive(Debug)]
pub enum RollbackCause {
    /// Applying the changes failed with this error.
    ApplyError(String),
    /// Connectivity verification failed with this error.
    VerifyError(String),
}

/// Where a safe apply stands.
#[derive(Debug)]
pub enum ApplyPhase {
    Validating,
    Applying,
    Verifying,
    RollingBack(RollbackCause),
    Committing,
    Done(ApplyResult),
}

/// What the caller performs next.
#[derive(Debug)]
pub enum ApplyAction {
    /// Ping the target once.
    CheckConnectivity(String),
    /// Snapshot the managed routes, then apply the changes.
    ApplyChanges,
    /// Ping the target once, giving up after the timeout.
    VerifyConnectivity { target: String, timeout_secs: u64 },
    /// Return the managed routes to the snapshot: delete those added since
    /// (`routes_to_roll_back`), then add again those deleted since
    /// (`routes_to_restore`).
    RollBack,
    /// Clear the managed route list.
    Commit,
    /// The flow is over; its result is `SafeApply::outcome`.
    Finished,
}

/// What came of the action the caller performed.
#[derive(Debug)]
pub enum ApplyEvent {
    ConnectivityOk,
    ConnectivityFailed(String),
    /// The connectivity verification did not finish within the timeout.
    TimedOut,
    ChangesApplied,
    ChangesFailed(String),
    /// The rollback finished; `true` when every deletion and every
    /// re-addition succeeded.
    RolledBack(bool),
    Committed,
}

/// The message of a failed validation.
pub open spec fn validation_message(e: Seq<char>) -> Seq<char> {
    "initial connectivity check failed: "@ + e
}

/// The message of a failed verification, with the rollback's outcome.
pub open spec fn verification_message(e: Seq<char>, rollback_ok: bool) -> Seq<char> {
    "connectivity check failed: "@ + e + ", rollback: "@ + if rollback_ok { "success"@ } else { "FAILED"@ }
}

/// The error of a verification that timed out.
pub open spec fn timeout_message() -> Seq<char> {
    "connectivity verification timed out"@
}

/// The first phase: a dry run succeeds at once, anything else is
/// validated first.
pub open spec fn initial_phase(dry_run: bool, p: ApplyPhase) -> bool {
    if dry_run {
        p matches ApplyPhase::Done(ApplyResult::Success)
    } else {
        p is Validating
    }
}

/// One step of the flow: `q` is the phase after `e` happened in phase
/// `p`. An event that does not belong to the phase changes nothing.
pub open spec fn transition(p: ApplyPhase, e: ApplyEvent, q: ApplyPhase) -> bool {
    match p {
        ApplyPhase::Validating => match e {
            ApplyEvent::ConnectivityOk => q is Applying,
            ApplyEvent::ConnectivityFailed(m) => (q matches ApplyPhase::Done(ApplyResult::ValidationFailed(s))
                && s@ == validation_message(m@)),
            _ => q == p,
        },
        ApplyPhase::Applying => match e {
            ApplyEvent::ChangesApplied => q is Verifying,
            ApplyEvent::ChangesFailed(m) => (q matches ApplyPhase::RollingBack(RollbackCause::ApplyError(s)) && s@
                == m@),
            _ => q == p,
        },
        ApplyPhase::Verifying => match e {
            ApplyEvent::ConnectivityOk => q is Committing,
            ApplyEvent::ConnectivityFailed(m) => (q matches ApplyPhase::RollingBack(RollbackCause::VerifyError(s))
                && s@ == m@),
            ApplyEvent::TimedOut => (q matches ApplyPhase::RollingBack(RollbackCause::VerifyError(s)) && s@
                == timeout_message()),
            _ => q == p,
        },
        ApplyPhase::RollingBack(c) => match e {
            ApplyEvent::RolledBack(ok) => match c {
                RollbackCause::ApplyError(m) => (q matches ApplyPhase::Done(
                    ApplyResult::ApplyFailed { error, rollback_success },
                ) && error@ == m@ && rollback_success == ok),
                RollbackCause::VerifyError(m) => (q matches ApplyPhase::Done(ApplyResult::VerificationFailed(s))
                    && s@ == verification_message(m@, ok)),
            },
            _ => q == p,
        },
        ApplyPhase::Committing => match e {
            ApplyEvent::Committed => q matches ApplyPhase::Done(ApplyResult::Success),
            _ => q == p,
        },
        ApplyPhase::Done(_) => q == p,
    }
}

/// The action that a phase asks of the caller.
pub open spec fn action_for(p: ApplyPhase, config: SafeApplyConfig, a: ApplyAction) -> bool {
    match p {
        ApplyPhase::Validating => (a matches ApplyAction::CheckConnectivity(t) && t@ == config.verify_target@),
        ApplyPhase::Applying => a is ApplyChanges,
        ApplyPhase::Verifying => (a matches ApplyAction::VerifyConnectivity { target, timeout_secs } && target@
            == config.verify_target@ && timeout_secs == config.verify_timeout_secs),
        ApplyPhase::RollingBack(_) => a is RollBack,
        ApplyPhase::Committing => a is Commit,
        ApplyPhase::Done(_) => a is Finished,
    }
}

fn validation_failure(e: &String) -> (s: String)
    ensures
        s@ == validation_message(e@),
{
    let mut s = lit("initial connectivity check failed: ");
    push_str(&mut s, e.as_str());
    s
}

fn verification_failure(e: &String, rollback_ok: bool) -> (s: String)
    ensures
        s@ == verification_message(e@, rollback_ok),
{
    let mut s = lit("connectivity check failed: ");
    push_str(&mut s, e.as_str());
    push_str(&mut s, ", rollback: ");
    if rollback_ok {
        push_str(&mut s, "success");
    } else {
        push_str(&mut s, "FAILED");
    }
    s
}

/// Runs the safe apply flow for network changes.
pub struct SafeApply {
    config: SafeApplyConfig,
    phase: ApplyPhase,
}

impl SafeApply {
    /// The configuration.
    pub closed spec fn config_spec(&self) -> SafeApplyConfig {
        self.config
    }

    /// The current phase.
    pub closed spec fn phase_spec(&self) -> ApplyPhase {
        self.phase
    }

    /// A flow at its first phase.
    pub fn new(config: SafeApplyConfig) -> (s: Self)
        ensures
            s.config_spec() == config,
            initial_phase(config.dry_run, s.phase_spec()),
    {
        let phase = if config.dry_run {
            ApplyPhase::Done(ApplyResult::Success)
        } else {
            ApplyPhase::Validating
        };
        SafeApply { config, phase }
    }

    /// The configuration.
    pub fn config(&self) -> (c: &SafeApplyConfig)
        ensures
            *c == self.config_spec(),
    {
        &self.config
    }

    /// The current phase.
    pub fn phase(&self) -> (p: &ApplyPhase)
        ensures
            *p == self.phase_spec(),
    {
        &self.phase
    }

    /// The action the caller performs next.
    pub fn next_action(&self) -> (a: ApplyAction)
        ensures
            action_for(self.phase_spec(), self.config_spec(), a),
    {
        match &self.phase {
            ApplyPhase::Validating => ApplyAction::CheckConnectivity(self.config.verify_target.clone()),
            ApplyPhase::Applying => ApplyAction::ApplyChanges,
            ApplyPhase::Verifying => ApplyAction::VerifyConnectivity {
                target: self.config.verify_target.clone(),
                timeout_secs: self.config.verify_timeout_secs,
            },
            ApplyPhase::RollingBack(_) => ApplyAction::RollBack,
            ApplyPhase::Committing => ApplyAction::Commit,
            ApplyPhase::Done(_) => ApplyAction::Finished,
        }
    }

    /// Moves the flow on by what came of the last action.
    pub fn on_event(&mut self, event: ApplyEvent)
        ensures
            transition(old(self).phase_spec(), event, final(self).phase_spec()),
            final(self).config_spec() == old(self).config_spec(),
    {
        let next: Option<ApplyPhase> = match &self.phase {
            ApplyPhase::Validating => match event {
                ApplyEvent::ConnectivityOk => Some(ApplyPhase::Applying),
                ApplyEvent::ConnectivityFailed(m) => Some(
                    ApplyPhase::Done(ApplyResult::ValidationFailed(validation_failure(&m))),
                ),
                _ => None,
            },
            ApplyPhase::Applying => match event {
                ApplyEvent::ChangesApplied => Some(ApplyPhase::Verifying),
                ApplyEvent::ChangesFailed(m) => Some(ApplyPhase::RollingBack(RollbackCause::ApplyError(m))),
                _ => None,
            },
            ApplyPhase::Verifying => match event {
                ApplyEvent::ConnectivityOk => Some(ApplyPhase::Committing),
                ApplyEvent::ConnectivityFailed(m) => Some(ApplyPhase::RollingBack(RollbackCause::VerifyError(m))),
                ApplyEvent::TimedOut => Some(
                    ApplyPhase::RollingBack(RollbackCause::VerifyError(lit("connectivity verification timed out"))),
                ),
                _ => None,
            },
            ApplyPhase::RollingBack(cause) => match event {
                ApplyEvent::RolledBack(ok) => match cause {
                    RollbackCause::ApplyError(m) => Some(
                        ApplyPhase::Done(ApplyResult::ApplyFailed { error: m.clone(), rollback_success: ok }),
                    ),
                    RollbackCause::VerifyError(m) => Some(
                        ApplyPhase::Done(ApplyResult::VerificationFailed(verification_failure(m, ok))),
                    ),
                },
                _ => None,
            },
            ApplyPhase::Committing => match event {
                ApplyEvent::Committed => Some(ApplyPhase::Done(ApplyResult::Success)),
                _ => None,
            },
            ApplyPhase::Done(_) => None,
        };
        match next {
            Some(p) => {
                self.phase = p;
            },
            None => {},
        }
    }

    /// The result, once the flow is over.
    pub fn outcome(&self) -> (r: Option<&ApplyResult>)
        ensures
            match self.phase_spec() {
                ApplyPhase::Done(res) => r == Some(&res),
                _ => r is None,
            },
    {
        match &self.phase {
            ApplyPhase::Done(res) => Some(res),
            _ => None,
        }
    }
}

/// `ping` arguments for one connectivity probe of `target`.
pub fn ping_args(target: &String) -> (args: Vec<String>)
    ensures
        views(args@) == seq!["-c"@, "1"@, "-W"@, "3"@, target@],
{
    let mut args: Vec<String> = Vec::new();
    push_lit(&mut args, "-c");
    push_lit(&mut args, "1");
    push_lit(&mut args, "-W");
    push_lit(&mut args, "3");
    push_clone(&mut args, target);
    args
}

// ---------------------------------------------------------------------------
// Laws of the flow
// ---------------------------------------------------------------------------

/// `phases` is a run of the flow: it starts at the first phase and each
/// phase follows from the one before by the event between them.
pub open spec fn is_run(dry_run: bool, events: Seq<ApplyEvent>, phases: Seq<ApplyPhase>) -> bool {
    &&& phases.len() == events.len() + 1
    &&& initial_phase(dry_run, phases[0])
    &&& forall|i: int| 0 <= i < events.len() ==> transition(phases[i], #[trigger] events[i], phases[i + 1])
}

/// How far a phase is into the flow; no step goes back.
pub open spec fn progress(p: ApplyPhase) -> int {
    match p {
        ApplyPhase::Validating => 0,
        ApplyPhase::Applying => 1,
        ApplyPhase::Verifying => 2,
        ApplyPhase::RollingBack(_) => 3,
        ApplyPhase::Committing => 3,
        ApplyPhase::Done(_) => 4,
    }
}

proof fn lemma_progress_monotone(dry_run: bool, events: Seq<ApplyEvent>, phases: Seq<ApplyPhase>, i: int, j: int)
    requires
        is_run(dry_run, events, phases),
        0 <= i <= j < phases.len(),
    ensures
        progress(phases[i]) <= progress(phases[j]),
    decreases j - i,
{
    if i < j {
        lemma_progress_monotone(dry_run, events, phases, i, j - 1);
        assert(transition(phases[j - 1], events[j - 1], phases[j]));
    }
}

/// What each phase of a run, up to `i`, says about the phases before it.
proof fn lemma_run_prefix(dry_run: bool, events: Seq<ApplyEvent>, phases: Seq<ApplyPhase>, i: int)
    requires
        is_run(dry_run, events, phases),
        0 <= i < phases.len(),
    ensures
        (phases[i] is Validating || phases[i] matches ApplyPhase::Done(ApplyResult::ValidationFailed(_)))
            ==> forall|k: int| #![auto] 0 <= k <= i ==> !(phases[k] is Applying),
        (phases[i] matches ApplyPhase::Done(ApplyResult::ApplyFailed { .. }) || phases[i] matches ApplyPhase::Done(
            ApplyResult::VerificationFailed(_),
        )) ==> exists|k: int| #![auto] 0 <= k < i && phases[k] is RollingBack,
        phases[i] matches ApplyPhase::Done(ApplyResult::Success) ==> dry_run || exists|k: int|
            #![auto]
            0 <= k < i && phases[k] is Committing,
        phases[i] is Committing ==> exists|k: int| #![auto] 0 <= k < i && phases[k] is Verifying,
        dry_run ==> phases[i] == phases[0],
    decreases i,
{
    if i > 0 {
        lemma_run_prefix(dry_run, events, phases, i - 1);
        let p = phases[i - 1];
        let q = phases[i];
        assert(transition(p, events[i - 1], q));
        if q is Validating || q matches ApplyPhase::Done(ApplyResult::ValidationFailed(_)) {
            assert(p is Validating || p == q);
            assert forall|k: int| #![auto] 0 <= k <= i implies !(phases[k] is Applying) by {
                if k < i {
                }
            }
        }
        if q matches ApplyPhase::Done(ApplyResult::ApplyFailed { .. }) || q matches ApplyPhase::Done(
            ApplyResult::VerificationFailed(_),
        ) {
            if p is RollingBack {
                assert(phases[i - 1] is RollingBack);
            } else {
                assert(p == q);
                let k = choose|k: int| #![auto] 0 <= k < i - 1 && phases[k] is RollingBack;
                assert(phases[k] is RollingBack);
            }
        }
        if q matches ApplyPhase::Done(ApplyResult::Success) && !dry_run {
            if p is Committing {
                assert(phases[i - 1] is Committing);
            } else {
                assert(p == q);
                let k = choose|k: int| #![auto] 0 <= k < i - 1 && phases[k] is Committing;
                assert(phases[k] is Committing);
            }
        }
        if q is Committing {
            if p is Verifying {
                assert(phases[i - 1] is Verifying);
            } else {
                assert(p == q);
                let k = choose|k: int| #![auto] 0 <= k < i - 1 && phases[k] is Verifying;
                assert(phases[k] is Verifying);
            }
        }
        if dry_run {
            assert(phases[0] matches ApplyPhase::Done(ApplyResult::Success));
            assert(p == phases[0]);
        }
    }
}

/// Network changes are never left in place after a failure: once the
/// changes were applied, a flow that ends with anything but success rolled
/// them back first.
pub proof fn lemma_failure_after_apply_rolls_back(
    dry_run: bool,
    events: Seq<ApplyEvent>,
    phases: Seq<ApplyPhase>,
    k: int,
)
    requires
        is_run(dry_run, events, phases),
        0 <= k < phases.len(),
        phases[k] is Applying,
        phases.last() is Done,
        !(phases.last() matches ApplyPhase::Done(ApplyResult::Success)),
    ensures
        exists|r: int| #![auto] k < r < phases.len() - 1 && phases[r] is RollingBack,
{
    let n = phases.len() - 1;
    lemma_run_prefix(dry_run, events, phases, n);
    assert(phases[n] == phases.last());
    if phases[n] matches ApplyPhase::Done(ApplyResult::ValidationFailed(_)) {
        assert(!(phases[k] is Applying));
    }
    let r = choose|r: int| #![auto] 0 <= r < n && phases[r] is RollingBack;
    if r <= k {
        lemma_progress_monotone(dry_run, events, phases, r, k);
    }
    assert(k < r < phases.len() - 1 && phases[r] is RollingBack);
}

/// A failed validation changes nothing: no run that ends in a validation
/// failure ever applied the changes.
pub proof fn lemma_validation_failure_applies_nothing(
    dry_run: bool,
    events: Seq<ApplyEvent>,
    phases: Seq<ApplyPhase>,
)
    requires
        is_run(dry_run, events, phases),
        phases.last() matches ApplyPhase::Done(ApplyResult::ValidationFailed(_)),
    ensures
        forall|k: int| #![auto] 0 <= k < phases.len() ==> !(phases[k] is Applying),
{
    lemma_run_prefix(dry_run, events, phases, phases.len() - 1);
    assert(phases[phases.len() - 1] == phases.last());
}

/// Success means the changes were applied, verified and committed, unless
/// the run was a dry run, which succeeds without any change.
pub proof fn lemma_success_is_verified(dry_run: bool, events: Seq<ApplyEvent>, phases: Seq<ApplyPhase>)
    requires
        is_run(dry_run, events, phases),
        phases.last() matches ApplyPhase::Done(ApplyResult::Success),
    ensures
        dry_run ==> forall|k: int| #![auto] 0 <= k < phases.len() ==> !(phases[k] is Applying),
        !dry_run ==> exists|k: int| #![auto] 0 <= k < phases.len() && phases[k] is Committing,
        !dry_run ==> exists|k: int| #![auto] 0 <= k < phases.len() && phases[k] is Verifying,
{
    let n = phases.len() - 1;
    lemma_run_prefix(dry_run, events, phases, n);
    assert(phases[n] == phases.last());
    if dry_run {
        assert forall|k: int| #![auto] 0 <= k < phases.len() implies !(phases[k] is Applying) by {
            lemma_run_prefix(dry_run, events, phases, k);
        }
    } else {
        let c = choose|c: int| #![auto] 0 <= c < n && phases[c] is Committing;
        lemma_run_prefix(dry_run, events, phases, c);
        let v = choose|v: int| #![auto] 0 <= v < c && phases[v] is Verifying;
        assert(phases[v] is Verifying);
    }
}

} // verus!
