//! Token budgets: how many tokens of context each source may use, and how
//! many it uses.

use vstd::prelude::*;
use crate::clock::now_millis;
use crate::context::classification::{
    SessionClassification, TokenBudgets, allocation_of, budget_part, lemma_budget_part_exact,
};

verus! {

/// The whole context window, in tokens.
pub const TOTAL_BUDGET: u32 = 100_000;

/// The part of the window that is kept free for the output.
pub const OUTPUT_RESERVED: u32 = 28_000;

/// The part of the window that context may fill.
pub const WORKING_BUDGET: u32 = TOTAL_BUDGET - OUTPUT_RESERVED;

/// Usage, in hundredths, from which the oldest summaries are compressed.
pub const THRESHOLD_AUTO_COMPRESS: u8 = 70;

/// Usage, in hundredths, from which the user is warned.
pub const THRESHOLD_WARN_USER: u8 = 85;

/// Usage, in hundredths, from which compression is forced.
pub const THRESHOLD_FORCE_COMPRESS: u8 = 95;

/// What the usage of a budget calls for.
#[derive(Debug, Clone, Copy, PartialEq, Eq, Structural)]
pub enum ThresholdStatus {
    /// Under 70 hundredths: nothing.
    Normal,
    /// From 70 hundredths: compress the oldest summaries.
    AutoCompress,
    /// From 85 hundredths: warn the user.
    WarnUser,
    /// From 95 hundredths: force compression.
    ForceCompress,
}

/// A source of context that has a budget and a usage.
#[derive(Debug, Clone, Copy, PartialEq, Eq, Structural)]
pub enum ContextSource {
    PaperTrail,
    Obsidian,
    Reference,
}

/// The budget of a session and what is used of it.
///
/// `last_audit` is a time in milliseconds since the Unix epoch.
#[derive(Debug, Clone, Copy, PartialEq, Eq, Structural)]
pub struct ContextBudget {
    pub classification: SessionClassification,
    pub paper_trail_budget: u32,
    pub paper_trail_used: u32,
    pub obsidian_budget: u32,
    pub obsidian_used: u32,
    pub reference_budget: u32,
    pub reference_used: u32,
    pub reasoning_budget: u32,
    pub last_audit: i64,
}

/// Budget, usage and what is left of one source.
#[derive(Debug, Clone, Copy, PartialEq, Eq, Structural)]
pub struct SourceStatus {
    pub budget: u32,
    pub used: u32,
    pub remaining: u32,
    pub percentage: u8,
}

/// The state of a budget, as it is shown.
#[derive(Debug, Clone, Copy, PartialEq, Eq, Structural)]
pub struct BudgetStatus {
    pub classification: SessionClassification,
    pub total_budget: u32,
    pub total_used: u32,
    pub usage_percentage: u8,
    pub threshold_status: ThresholdStatus,
    pub paper_trail: SourceStatus,
    pub obsidian: SourceStatus,
    pub reference: SourceStatus,
    pub reasoning_budget: u32,
    pub last_audit: i64,
}

/// What a usage of `percentage` hundredths calls for.
pub open spec fn status_of(percentage: u8) -> ThresholdStatus {
    if percentage >= THRESHOLD_FORCE_COMPRESS {
        ThresholdStatus::ForceCompress
    } else if percentage >= THRESHOLD_WARN_USER {
        ThresholdStatus::WarnUser
    } else if percentage >= THRESHOLD_AUTO_COMPRESS {
        ThresholdStatus::AutoCompress
    } else {
        ThresholdStatus::Normal
    }
}

/// `used` in hundredths of `budget`, rounded down, as it fits into a `u8`:
/// zero for a budget of zero, and the low 8 bits where the usage is above
/// 255 hundredths.
pub open spec fn source_percentage(used: u32, budget: u32) -> u8 {
    if budget == 0 {
        0
    } else {
        ((used as int * 100 / budget as int) % 256) as u8
    }
}

/// What is left of `budget` after `used`; nothing where more is used.
pub open spec fn left_of(budget: u32, used: u32) -> u32 {
    if used >= budget {
        0
    } else {
        (budget - used) as u32
    }
}

/// The status of one source.
pub open spec fn source_status_of(budget: u32, used: u32) -> SourceStatus {
    SourceStatus {
        budget,
        used,
        remaining: left_of(budget, used),
        percentage: source_percentage(used, budget),
    }
}

/// Computes [`source_status_of`].
pub fn source_status(budget: u32, used: u32) -> (status: SourceStatus)
    ensures
        status == source_status_of(budget, used),
{
    let percentage: u8 = if budget > 0 {
        let scaled: u64 = used as u64 * 100;
        let quotient: u64 = scaled / budget as u64;
        (quotient % 256) as u8
    } else {
        0
    };
    SourceStatus { budget, used, remaining: budget.saturating_sub(used), percentage }
}

impl ContextBudget {
    /// A budget for `classification` of which nothing is used, audited at
    /// `now`.
    pub open spec fn fresh(classification: SessionClassification, now: i64) -> ContextBudget {
        let allocation = allocation_of(classification);
        ContextBudget {
            classification,
            paper_trail_budget: budget_part(WORKING_BUDGET, allocation.paper_trail_pct),
            paper_trail_used: 0,
            obsidian_budget: budget_part(WORKING_BUDGET, allocation.obsidian_pct),
            obsidian_used: 0,
            reference_budget: budget_part(WORKING_BUDGET, allocation.reference_pct),
            reference_used: 0,
            reasoning_budget: budget_part(WORKING_BUDGET, allocation.reasoning_pct),
            last_audit: now,
        }
    }

    /// This budget after a change of classification at `now`: the budgets are
    /// those of the new classification, the usage stays.
    pub open spec fn reclassified(self, classification: SessionClassification, now: i64) -> ContextBudget {
        ContextBudget {
            paper_trail_used: self.paper_trail_used,
            obsidian_used: self.obsidian_used,
            reference_used: self.reference_used,
            ..Self::fresh(classification, now)
        }
    }

    /// The tokens used by all sources.
    pub open spec fn used_sum(self) -> int {
        self.paper_trail_used + self.obsidian_used + self.reference_used
    }

    /// The budgets of all sources; the reasoning budget is not among them.
    pub open spec fn budget_sum(self) -> int {
        self.paper_trail_budget + self.obsidian_budget + self.reference_budget
    }

    /// The usage in hundredths of the budget, rounded down and at most 100;
    /// zero for a budget of zero.
    pub open spec fn percentage_of(self) -> u8 {
        if self.budget_sum() == 0 {
            0
        } else if self.used_sum() * 100 / self.budget_sum() >= 100 {
            100
        } else {
            (self.used_sum() * 100 / self.budget_sum()) as u8
        }
    }

    /// What the source uses.
    pub open spec fn used_by(self, source: ContextSource) -> u32 {
        match source {
            ContextSource::PaperTrail => self.paper_trail_used,
            ContextSource::Obsidian => self.obsidian_used,
            ContextSource::Reference => self.reference_used,
        }
    }

    /// What the source may use.
    pub open spec fn budget_for(self, source: ContextSource) -> u32 {
        match source {
            ContextSource::PaperTrail => self.paper_trail_budget,
            ContextSource::Obsidian => self.obsidian_budget,
            ContextSource::Reference => self.reference_budget,
        }
    }

    /// This budget with the usage of `source` set to `used`.
    pub open spec fn with_used(self, source: ContextSource, used: u32) -> ContextBudget {
        match source {
            ContextSource::PaperTrail => ContextBudget { paper_trail_used: used, ..self },
            ContextSource::Obsidian => ContextBudget { obsidian_used: used, ..self },
            ContextSource::Reference => ContextBudget { reference_used: used, ..self },
        }
    }

    /// `tokens` more fit into the budget of `source`.
    pub open spec fn fits(self, source: ContextSource, tokens: u32) -> bool {
        self.used_by(source) + tokens <= self.budget_for(source)
    }

    /// A budget for `classification` of which nothing is used, audited at
    /// `now`.
    pub fn at(classification: SessionClassification, now: i64) -> (budget: Self)
        ensures
            budget == Self::fresh(classification, now),
    {
        let budgets = classification.get_allocation().to_token_budgets(WORKING_BUDGET);
        ContextBudget {
            classification,
            paper_trail_budget: budgets.paper_trail,
            paper_trail_used: 0,
            obsidian_budget: budgets.obsidian,
            obsidian_used: 0,
            reference_budget: budgets.reference,
            reference_used: 0,
            reasoning_budget: budgets.reasoning,
            last_audit: now,
        }
    }

    /// A budget for `classification` of which nothing is used, audited now.
    pub fn new(classification: SessionClassification) -> (budget: Self)
        ensures
            budget == Self::fresh(classification, budget.last_audit),
    {
        Self::at(classification, now_millis())
    }

    /// Sets the budgets to those of `classification` and the audit to `now`.
    /// The usage stays.
    pub fn reclassify_at(&mut self, classification: SessionClassification, now: i64)
        ensures
            *final(self) == old(self).reclassified(classification, now),
    {
        let budgets = classification.get_allocation().to_token_budgets(WORKING_BUDGET);
        self.classification = classification;
        self.paper_trail_budget = budgets.paper_trail;
        self.obsidian_budget = budgets.obsidian;
        self.reference_budget = budgets.reference;
        self.reasoning_budget = budgets.reasoning;
        self.last_audit = now;
    }

    /// Sets the budgets to those of `classification` and the audit to now.
    /// The usage stays.
    pub fn reclassify(&mut self, classification: SessionClassification)
        ensures
            *final(self) == old(self).reclassified(classification, final(self).last_audit),
    {
        self.reclassify_at(classification, now_millis());
    }

    /// The tokens used by all sources.
    pub fn total_used(&self) -> (sum: u32)
        requires
            self.used_sum() <= u32::MAX,
        ensures
            sum == self.used_sum(),
    {
        self.paper_trail_used + self.obsidian_used + self.reference_used
    }

    /// The usage in hundredths of the budget, at most 100.
    pub fn usage_percentage(&self) -> (percentage: u8)
        ensures
            percentage == self.percentage_of(),
            percentage <= 100,
    {
        let budget: u64 = self.paper_trail_budget as u64 + self.obsidian_budget as u64
            + self.reference_budget as u64;
        if budget == 0 {
            return 0;
        }
        let used: u64 = self.paper_trail_used as u64 + self.obsidian_used as u64 + self.reference_used as u64;
        let quotient: u64 = used * 100 / budget;
        if quotient >= 100 {
            100
        } else {
            quotient as u8
        }
    }

    /// What the usage calls for.
    pub fn threshold_status(&self) -> (status: ThresholdStatus)
        ensures
            status == status_of(self.percentage_of()),
    {
        let percentage = self.usage_percentage();
        if percentage >= THRESHOLD_FORCE_COMPRESS {
            ThresholdStatus::ForceCompress
        } else if percentage >= THRESHOLD_WARN_USER {
            ThresholdStatus::WarnUser
        } else if percentage >= THRESHOLD_AUTO_COMPRESS {
            ThresholdStatus::AutoCompress
        } else {
            ThresholdStatus::Normal
        }
    }

    /// What is left of each budget. Reasoning uses nothing of its own.
    pub fn remaining(&self) -> (left: TokenBudgets)
        ensures
            left.paper_trail == left_of(self.paper_trail_budget, self.paper_trail_used),
            left.obsidian == left_of(self.obsidian_budget, self.obsidian_used),
            left.reference == left_of(self.reference_budget, self.reference_used),
            left.reasoning == self.reasoning_budget,
    {
        TokenBudgets {
            paper_trail: self.paper_trail_budget.saturating_sub(self.paper_trail_used),
            obsidian: self.obsidian_budget.saturating_sub(self.obsidian_used),
            reference: self.reference_budget.saturating_sub(self.reference_used),
            reasoning: self.reasoning_budget,
        }
    }

    /// Whether `tokens` more fit into the budget of `source`.
    pub fn can_add(&self, source: ContextSource, tokens: u32) -> (fits: bool)
        ensures
            fits == self.fits(source, tokens),
    {
        match source {
            ContextSource::PaperTrail => self.paper_trail_used as u64 + tokens as u64
                <= self.paper_trail_budget as u64,
            ContextSource::Obsidian => self.obsidian_used as u64 + tokens as u64
                <= self.obsidian_budget as u64,
            ContextSource::Reference => self.reference_used as u64 + tokens as u64
                <= self.reference_budget as u64,
        }
    }

    /// Adds `tokens` to the usage of `source` where they fit, and tells
    /// whether they did. Where they do not fit, nothing changes.
    pub fn add_tokens(&mut self, source: ContextSource, tokens: u32) -> (added: bool)
        ensures
            added == old(self).fits(source, tokens),
            added ==> *final(self) == old(self).with_used(
                source,
                (old(self).used_by(source) + tokens) as u32,
            ),
            !added ==> *final(self) == *old(self),
    {
        if !self.can_add(source, tokens) {
            return false;
        }
        match source {
            ContextSource::PaperTrail => {
                self.paper_trail_used = self.paper_trail_used + tokens;
            },
            ContextSource::Obsidian => {
                self.obsidian_used = self.obsidian_used + tokens;
            },
            ContextSource::Reference => {
                self.reference_used = self.reference_used + tokens;
            },
        }
        true
    }

    /// Takes `tokens` from the usage of `source`, down to zero at most.
    pub fn remove_tokens(&mut self, source: ContextSource, tokens: u32)
        ensures
            *final(self) == old(self).with_used(source, left_of(old(self).used_by(source), tokens)),
    {
        match source {
            ContextSource::PaperTrail => {
                self.paper_trail_used = self.paper_trail_used.saturating_sub(tokens);
            },
            ContextSource::Obsidian => {
                self.obsidian_used = self.obsidian_used.saturating_sub(tokens);
            },
            ContextSource::Reference => {
                self.reference_used = self.reference_used.saturating_sub(tokens);
            },
        }
    }

    /// Sets the audit to `now`.
    pub fn record_audit_at(&mut self, now: i64)
        ensures
            *final(self) == (ContextBudget { last_audit: now, ..*old(self) }),
    {
        self.last_audit = now;
    }

    /// Sets the audit to now.
    pub fn record_audit(&mut self)
        ensures
            *final(self) == (ContextBudget { last_audit: final(self).last_audit, ..*old(self) }),
    {
        self.record_audit_at(now_millis());
    }
}

impl Default for ContextBudget {
    fn default() -> (budget: Self)
        ensures
            budget == Self::fresh(SessionClassification::NetNew, budget.last_audit),
    {
        Self::new(SessionClassification::NetNew)
    }
}

impl BudgetStatus {
    /// The status of `budget`.
    pub open spec fn status_for(budget: ContextBudget) -> BudgetStatus {
        BudgetStatus {
            classification: budget.classification,
            total_budget: WORKING_BUDGET,
            total_used: budget.used_sum() as u32,
            usage_percentage: budget.percentage_of(),
            threshold_status: status_of(budget.percentage_of()),
            paper_trail: source_status_of(budget.paper_trail_budget, budget.paper_trail_used),
            obsidian: source_status_of(budget.obsidian_budget, budget.obsidian_used),
            reference: source_status_of(budget.reference_budget, budget.reference_used),
            reasoning_budget: budget.reasoning_budget,
            last_audit: budget.last_audit,
        }
    }

    /// The state of `budget`, as it is shown.
    pub fn from_budget(budget: &ContextBudget) -> (status: Self)
        requires
            budget.used_sum() <= u32::MAX,
        ensures
            status == Self::status_for(*budget),
    {
        BudgetStatus {
            classification: budget.classification,
            total_budget: WORKING_BUDGET,
            total_used: budget.total_used(),
            usage_percentage: budget.usage_percentage(),
            threshold_status: budget.threshold_status(),
            paper_trail: source_status(budget.paper_trail_budget, budget.paper_trail_used),
            obsidian: source_status(budget.obsidian_budget, budget.obsidian_used),
            reference: source_status(budget.reference_budget, budget.reference_used),
            reasoning_budget: budget.reasoning_budget,
            last_audit: budget.last_audit,
        }
    }
}

/// A fresh budget gives its sources ten to seventy hundredths of the working
/// budget, by classification, and its usage calls for nothing.
pub proof fn lemma_fresh_budget_is_normal(classification: SessionClassification, now: i64)
    ensures
        ContextBudget::fresh(classification, now).used_sum() == 0,
        ContextBudget::fresh(classification, now).percentage_of() == 0,
        status_of(ContextBudget::fresh(classification, now).percentage_of()) == ThresholdStatus::Normal,
{
    let budget = ContextBudget::fresh(classification, now);
    let allocation = allocation_of(classification);
    lemma_budget_part_exact(WORKING_BUDGET, allocation.paper_trail_pct);
    lemma_budget_part_exact(WORKING_BUDGET, allocation.obsidian_pct);
    lemma_budget_part_exact(WORKING_BUDGET, allocation.reference_pct);
    if budget.budget_sum() != 0 {
        assert(0int * 100 / budget.budget_sum() == 0) by (nonlinear_arith)
            requires
                budget.budget_sum() > 0,
        ;
    }
}

} // verus!
