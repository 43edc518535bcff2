//! Policy evaluator: a pure function that bounds a batch request against the
//! configured caps and the AI-proposal mode.
//!
//! Rules, in order: an AI proposal is denied while AI mode is off; a request
//! above the concurrent-task cap is limited to the cap; anything else is
//! allowed.  The evaluator holds no state and does no I/O, so equal inputs
//! always yield equal decisions.

use vstd::prelude::*;

use crate::text::spec_udec;
use crate::text::str_eq;
use crate::text::u64_to_decimal;

verus! {

/// How far AI-proposed work is admitted by the scheduler.
#[derive(Clone, Copy, PartialEq, Eq, Structural, Debug)]
pub enum AiMode {
    AiOff,
    AiAdvisory,
    AiAssisted,
    AiFull,
}

impl AiMode {
    /// The wire label of this mode.
    pub fn as_str(&self) -> (r: &'static str)
        ensures
            r@ == self.spec_label(),
    {
        match self {
            AiMode::AiOff => "AI_OFF",
            AiMode::AiAdvisory => "AI_ADVISORY",
            AiMode::AiAssisted => "AI_ASSISTED",
            AiMode::AiFull => "AI_FULL",
        }
    }

    /// The label each mode prints and parses from.
    pub open spec fn spec_label(self) -> Seq<char> {
        match self {
            AiMode::AiOff => "AI_OFF"@,
            AiMode::AiAdvisory => "AI_ADVISORY"@,
            AiMode::AiAssisted => "AI_ASSISTED"@,
            AiMode::AiFull => "AI_FULL"@,
        }
    }

    /// Parse a wire label; `None` on anything unrecognised.
    pub fn parse(s: &str) -> (r: Option<AiMode>)
        ensures
            r matches Some(m) ==> s@ == m.spec_label(),
            r is None ==> forall|m: AiMode| s@ != m.spec_label(),
    {
        if str_eq(s, "AI_OFF") {
            Some(AiMode::AiOff)
        } else if str_eq(s, "AI_ADVISORY") {
            Some(AiMode::AiAdvisory)
        } else if str_eq(s, "AI_ASSISTED") {
            Some(AiMode::AiAssisted)
        } else if str_eq(s, "AI_FULL") {
            Some(AiMode::AiFull)
        } else {
            None
        }
    }
}

/// Configured caps for batch allocation.  The daily budget is informational
/// in the current scope and carried in cents; the recheck threshold is the
/// sampled fraction in percent.
#[derive(Clone, Copy)]
pub struct PolicyConfig {
    pub ai_mode: AiMode,
    pub max_concurrent_tasks: u32,
    pub max_daily_budget_cents: u64,
    pub recheck_threshold_pct: u8,
}

impl PolicyConfig {
    /// The defaults applied when no setting is given.
    pub fn new_default() -> (r: PolicyConfig)
        ensures
            r.ai_mode == AiMode::AiOff,
            r.max_concurrent_tasks == 10u32,
            r.max_daily_budget_cents == 10000u64,
            r.recheck_threshold_pct == 20u8,
    {
        PolicyConfig {
            ai_mode: AiMode::AiOff,
            max_concurrent_tasks: 10,
            max_daily_budget_cents: 10000,
            recheck_threshold_pct: 20,
        }
    }
}

/// Who proposed the batch request.
#[derive(Clone, Copy, PartialEq, Eq, Structural, Debug)]
pub enum ProposalSource {
    Ai,
    System,
    Unknown,
}

impl ProposalSource {
    /// Classify an optional wire tag; anything unrecognised is `Unknown`.
    pub fn from_optional(value: Option<&str>) -> (r: Self)
        ensures
            r == Self::spec_from_optional(match value {
                Some(s) => Some(s@),
                None => None,
            }),
    {
        match value {
            Some(s) => {
                if str_eq(s, "ai") || str_eq(s, "AI") {
                    ProposalSource::Ai
                } else if str_eq(s, "system") || str_eq(s, "SYSTEM") {
                    ProposalSource::System
                } else {
                    ProposalSource::Unknown
                }
            },
            None => ProposalSource::Unknown,
        }
    }

    /// What `from_optional` returns for each tag.
    pub open spec fn spec_from_optional(value: Option<Seq<char>>) -> ProposalSource {
        match value {
            Some(s) => if s == "ai"@ || s == "AI"@ {
                ProposalSource::Ai
            } else if s == "system"@ || s == "SYSTEM"@ {
                ProposalSource::System
            } else {
                ProposalSource::Unknown
            },
            None => ProposalSource::Unknown,
        }
    }
}

/// A batch request as seen by the policy: how many tasks, proposed by whom.
pub struct TaskRequestProposal {
    pub requested_tasks: u32,
    pub source: ProposalSource,
}

/// The policy's verdict on a batch request.
pub enum PolicyDecision {
    Allowed { reasons: Vec<String> },
    Limited { granted_tasks: u32, reasons: Vec<String> },
    Denied { reasons: Vec<String> },
}

impl PolicyDecision {
    /// The wire tag of this decision.
    pub fn decision(&self) -> (r: &'static str)
        ensures
            self matches PolicyDecision::Allowed { .. } ==> r@ == "allow"@,
            self matches PolicyDecision::Limited { .. } ==> r@ == "limit"@,
            self matches PolicyDecision::Denied { .. } ==> r@ == "deny"@,
    {
        match self {
            PolicyDecision::Allowed { .. } => "allow",
            PolicyDecision::Limited { .. } => "limit",
            PolicyDecision::Denied { .. } => "deny",
        }
    }

    /// The reasons attached to the decision, whatever its tag.
    pub fn reasons(&self) -> (r: &Vec<String>)
        ensures
            r@ == self.spec_reasons(),
    {
        match self {
            PolicyDecision::Allowed { reasons } => reasons,
            PolicyDecision::Limited { reasons, .. } => reasons,
            PolicyDecision::Denied { reasons } => reasons,
        }
    }

    /// The reasons attached to the decision.
    pub open spec fn spec_reasons(self) -> Seq<String> {
        match self {
            PolicyDecision::Allowed { reasons } => reasons@,
            PolicyDecision::Limited { reasons, .. } => reasons@,
            PolicyDecision::Denied { reasons } => reasons@,
        }
    }
}

/// An AI proposal is denied while AI mode is off.
pub open spec fn spec_denies(config: PolicyConfig, proposal: TaskRequestProposal) -> bool {
    proposal.source == ProposalSource::Ai && config.ai_mode == AiMode::AiOff
}

/// A request above the cap is limited to the cap.
pub open spec fn spec_limits(config: PolicyConfig, proposal: TaskRequestProposal) -> bool {
    !spec_denies(config, proposal) && proposal.requested_tasks > config.max_concurrent_tasks
}

/// Deterministic policy gate over the configured caps.
pub struct PolicyEngine {
    pub config: PolicyConfig,
}

impl PolicyEngine {
    pub fn new(config: PolicyConfig) -> (r: Self)
        ensures
            r.config == config,
    {
        PolicyEngine { config }
    }

    pub fn config(&self) -> (r: &PolicyConfig)
        ensures
            r == self.config,
    {
        &self.config
    }

    /// Evaluate a batch request.  Denies AI proposals while AI is off, limits
    /// a request above the concurrent-task cap to the cap, allows the rest
    /// with no reasons.
    pub fn evaluate_task_request(&self, proposal: TaskRequestProposal) -> (r: PolicyDecision)
        ensures
            spec_denies(self.config, proposal) ==> (r matches PolicyDecision::Denied { reasons }
                && reasons@.len() == 1
                && reasons@[0]@ == "ai_off: ai proposals disabled"@),
            spec_limits(self.config, proposal) ==> (r matches PolicyDecision::Limited {
                granted_tasks,
                reasons,
            } && granted_tasks == self.config.max_concurrent_tasks && reasons@.len() == 1
                && reasons@[0]@ == "requested_tasks "@ + spec_udec(
                proposal.requested_tasks as nat,
            ) + " exceeds max "@ + spec_udec(self.config.max_concurrent_tasks as nat)),
            !spec_denies(self.config, proposal) && !spec_limits(self.config, proposal) ==> (
            r matches PolicyDecision::Allowed { reasons } && reasons@.len() == 0),
    {
        let mut reasons: Vec<String> = Vec::new();

        if proposal.source == ProposalSource::Ai && matches!(self.config.ai_mode, AiMode::AiOff) {
            reasons.push(String::from_str("ai_off: ai proposals disabled"));
            return PolicyDecision::Denied { reasons };
        }

        if proposal.requested_tasks > self.config.max_concurrent_tasks {
            let mut reason = String::from_str("requested_tasks ");
            let requested_text = u64_to_decimal(proposal.requested_tasks as u64);
            reason.append(requested_text.as_str());
            reason.append(" exceeds max ");
            let max_text = u64_to_decimal(self.config.max_concurrent_tasks as u64);
            reason.append(max_text.as_str());
            reasons.push(reason);
            return PolicyDecision::Limited {
                granted_tasks: self.config.max_concurrent_tasks,
                reasons,
            };
        }

        PolicyDecision::Allowed { reasons }
    }
}

} // verus!
