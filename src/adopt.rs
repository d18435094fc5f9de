//! The adoption orchestrator: tries session strategies in a fixed order and
//! decides after each failure whether to fall back or stop.
use crate::session::{error_text, outcome_view, FailureKind, SshError};
use crate::text::join3;
use vstd::prelude::*;

verus! {

/// A way of opening an administrative session on a device.
#[derive(PartialEq, Eq, Structural, Clone, Copy, Debug)]
pub enum Strategy {
    /// The system session client, fed the password by a credential helper.
    ProcessPassword,
    /// The system session client, answered by a disposable helper script.
    ProcessScripted,
    /// The session protocol spoken directly, with legacy algorithms.
    Native,
}

/// The device to adopt and what to tell it.
pub struct SessionTarget {
    pub ip: String,
    pub inform_url: String,
    pub custom_password: Option<String>,
}

/// Address, inform URL and optional password of a target.
pub struct TargetView {
    pub ip: Seq<char>,
    pub inform_url: Seq<char>,
    pub custom_password: Option<Seq<char>>,
}

impl View for SessionTarget {
    type V = TargetView;

    open spec fn view(&self) -> TargetView {
        TargetView {
            ip: self.ip@,
            inform_url: self.inform_url@,
            custom_password: match self.custom_password {
                Some(p) => Some(p@),
                None => None,
            },
        }
    }
}

/// The order in which strategies are tried: the client with the credential
/// helper when that helper is installed, else the scripted client; then the
/// native protocol.
pub open spec fn strategy_order_spec(helper_available: bool) -> Seq<Strategy> {
    seq![
        if helper_available {
            Strategy::ProcessPassword
        } else {
            Strategy::ProcessScripted
        },
        Strategy::Native,
    ]
}

/// The order in which strategies are tried.
pub fn strategy_order(helper_available: bool) -> (r: Vec<Strategy>)
    ensures
        r@ == strategy_order_spec(helper_available),
{
    let first = if helper_available {
        Strategy::ProcessPassword
    } else {
        Strategy::ProcessScripted
    };
    let r = vec![first, Strategy::Native];
    assert(r@ =~= strategy_order_spec(helper_available));
    r
}

/// An adoption under way: a strategy has been started and its outcome is due.
pub struct Adoption {
    target: SessionTarget,
    order: Vec<Strategy>,
    next: usize,
    first_error: Option<String>,
}

/// The state of an adoption.
pub struct AdoptionView {
    pub target: TargetView,
    pub order: Seq<Strategy>,
    /// Index in `order` of the strategy to try after the running one.
    pub next: int,
    /// Operator text of the first failure, once there was one.
    pub first_error: Option<Seq<char>>,
}

impl View for Adoption {
    type V = AdoptionView;

    closed spec fn view(&self) -> AdoptionView {
        AdoptionView {
            target: self.target@,
            order: self.order@,
            next: self.next as int,
            first_error: match self.first_error {
                Some(e) => Some(e@),
                None => None,
            },
        }
    }
}

/// What the caller does next.
pub enum AdoptStep {
    /// Run `strategy` against the adoption's target and report its outcome.
    Run(Adoption, Strategy),
    /// The device took the command; its output.
    Succeeded(String),
    /// The adoption failed; the message for the operator.
    Failed(String),
}

/// The view of a step.
pub enum StepView {
    Run(AdoptionView, Strategy),
    Succeeded(Seq<char>),
    Failed(Seq<char>),
}

impl View for AdoptStep {
    type V = StepView;

    open spec fn view(&self) -> StepView {
        match self {
            AdoptStep::Run(a, s) => StepView::Run(a@, *s),
            AdoptStep::Succeeded(o) => StepView::Succeeded(o@),
            AdoptStep::Failed(m) => StepView::Failed(m@),
        }
    }
}

/// Message once every strategy failed: the first failure, which is the one
/// most telling to the operator.
pub open spec fn exhausted_text(ip: Seq<char>, first: Seq<char>) -> Seq<char> {
    "SSH error: Failed to connect to "@ + ip + ": "@ + first
}

/// The first step of an adoption of `target`.
pub open spec fn start_spec(target: TargetView, helper_available: bool) -> StepView {
    StepView::Run(
        AdoptionView {
            target,
            order: strategy_order_spec(helper_available),
            next: 1,
            first_error: None,
        },
        strategy_order_spec(helper_available)[0],
    )
}

/// Whether a failure of class `kind` ends the adoption rather than moving on
/// to another strategy.
pub open spec fn is_terminal(kind: FailureKind) -> bool {
    kind == FailureKind::AuthenticationFailed || kind == FailureKind::CommandFailed
}

/// The step after the running strategy of `s` came to `outcome`.
///
/// Success ends the adoption. Rejected credentials end it too: they fail
/// alike on every strategy, and more attempts risk locking the device. So
/// does a command failure: the device accepted the session and rejected the
/// command, which another strategy would meet again. A refused or timed-out
/// connection, or any other failure, moves on to the next strategy, if one is
/// left.
pub open spec fn transition(
    s: AdoptionView,
    outcome: Result<Seq<char>, (FailureKind, Seq<char>)>,
) -> StepView {
    match outcome {
        Ok(out) => StepView::Succeeded(out),
        Err((kind, m)) => if is_terminal(kind) {
            StepView::Failed(error_text(kind, m))
        } else {
            let first = match s.first_error {
                Some(f) => f,
                None => error_text(kind, m),
            };
            if s.next < s.order.len() {
                StepView::Run(
                    AdoptionView { next: s.next + 1, first_error: Some(first), ..s },
                    s.order[s.next],
                )
            } else {
                StepView::Failed(exhausted_text(s.target.ip, first))
            }
        },
    }
}

impl Adoption {
    /// Well-formed: the next index is within the order.
    pub open spec fn wf(&self) -> bool {
        0 <= self@.next <= self@.order.len()
    }

    /// Starts adopting `target`: the first strategy to run.
    pub fn start(target: SessionTarget, helper_available: bool) -> (step: AdoptStep)
        ensures
            step@ == start_spec(target@, helper_available),
            step matches AdoptStep::Run(a, _) && a.wf(),
    {
        let order = strategy_order(helper_available);
        let first = order[0];
        AdoptStep::Run(Adoption { target, order, next: 1, first_error: None }, first)
    }

    /// The device this adoption works on.
    pub fn target(&self) -> (r: &SessionTarget)
        ensures
            r@ == self@.target,
    {
        &self.target
    }

    /// Takes the outcome of the strategy that ran and gives the next step.
    pub fn on_outcome(self, outcome: Result<String, SshError>) -> (step: AdoptStep)
        requires
            self.wf(),
        ensures
            step@ == transition(self@, outcome_view(outcome)),
            step matches AdoptStep::Run(a, _) ==> a.wf(),
    {
        match outcome {
            Ok(out) => AdoptStep::Succeeded(out),
            Err(e) => {
                let kind = e.kind();
                if kind == FailureKind::AuthenticationFailed || kind == FailureKind::CommandFailed {
                    return AdoptStep::Failed(e.message());
                }
                let Adoption { target, order, next, first_error } = self;
                let first = match first_error {
                    Some(f) => f,
                    None => e.message(),
                };
                if next < order.len() {
                    let strategy = order[next];
                    AdoptStep::Run(
                        Adoption { target, order, next: next + 1, first_error: Some(first) },
                        strategy,
                    )
                } else {
                    AdoptStep::Failed(
                        join3(
                            crate::text::join2("SSH error: Failed to connect to ", target.ip.as_str()).as_str(),
                            ": ",
                            first.as_str(),
                        ),
                    )
                }
            },
        }
    }
}

/// Rejected credentials end an adoption at once, whichever strategy met
/// them: no further strategy is started, and the failure is reported as is.
pub proof fn lemma_auth_failure_stops(s: AdoptionView, m: Seq<char>)
    ensures
        transition(s, Err((FailureKind::AuthenticationFailed, m))) == StepView::Failed(
            error_text(FailureKind::AuthenticationFailed, m),
        ),
{
}

/// When the first strategy meets rejected credentials, the second one is
/// never started.
pub proof fn lemma_first_auth_failure_runs_one(
    target: TargetView,
    helper_available: bool,
    m: Seq<char>,
)
    ensures
        start_spec(target, helper_available) matches StepView::Run(a, _) && !(transition(
            a,
            Err((FailureKind::AuthenticationFailed, m)),
        ) is Run),
{
}

/// A refused or timed-out connection, or any other failure that is neither
/// rejected credentials nor a rejected command, moves on to the next
/// strategy of the order, if there is one, with the target unchanged.
pub proof fn lemma_fallback_keeps_target(s: AdoptionView, kind: FailureKind, m: Seq<char>)
    requires
        kind != FailureKind::AuthenticationFailed,
        kind != FailureKind::CommandFailed,
        0 <= s.next < s.order.len(),
    ensures
        transition(s, Err((kind, m))) matches StepView::Run(b, st) && st == s.order[s.next]
            && b.target == s.target,
{
}

/// When the first strategy fails for any reason but rejected credentials or
/// a rejected command, the native protocol is tried next, on the same target.
pub proof fn lemma_first_failure_falls_back(
    target: TargetView,
    helper_available: bool,
    kind: FailureKind,
    m: Seq<char>,
)
    requires
        kind != FailureKind::AuthenticationFailed,
        kind != FailureKind::CommandFailed,
    ensures
        start_spec(target, helper_available) matches StepView::Run(a, _) && transition(
            a,
            Err((kind, m)),
        ) matches StepView::Run(b, st) && st == Strategy::Native && b.target == target,
{
}

/// A rejected command ends an adoption at once, whichever strategy met it:
/// no further strategy is started, and the failure is reported as is.
pub proof fn lemma_command_failure_stops(s: AdoptionView, m: Seq<char>)
    ensures
        transition(s, Err((FailureKind::CommandFailed, m))) == StepView::Failed(
            error_text(FailureKind::CommandFailed, m),
        ),
{
}

} // verus!
