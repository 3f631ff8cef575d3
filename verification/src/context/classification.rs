//! Session classification: how a session relates to existing theses, and
//! the budget allocation that follows from it.

use vstd::prelude::*;

verus! {

/// How a session relates to existing theses.
#[derive(Debug, Clone, Copy, PartialEq, Eq, Structural)]
pub enum SessionClassification {
    /// Matches an existing thesis: heavy paper trail, moderate notes.
    Fit,
    /// Related to existing work: balanced allocation.
    Adjacent,
    /// Fresh territory: minimal history, heavy reasoning.
    NetNew,
    /// Ephemeral query: no paper trail, most for references and reasoning.
    Quick,
}

impl Default for SessionClassification {
    fn default() -> (classification: Self)
        ensures
            classification == SessionClassification::NetNew,
    {
        SessionClassification::NetNew
    }
}

/// The share of the working budget that each context source gets, in
/// hundredths.
#[derive(Debug, Clone, Copy, PartialEq, Eq, Structural)]
pub struct BudgetAllocation {
    pub paper_trail_pct: u8,
    pub obsidian_pct: u8,
    pub reference_pct: u8,
    pub reasoning_pct: u8,
}

/// Token budgets in absolute numbers.
#[derive(Debug, Clone, Copy, PartialEq, Eq, Structural)]
pub struct TokenBudgets {
    pub paper_trail: u32,
    pub obsidian: u32,
    pub reference: u32,
    pub reasoning: u32,
}

/// The allocation of a classification.
pub open spec fn allocation_of(classification: SessionClassification) -> BudgetAllocation {
    match classification {
        SessionClassification::Fit => BudgetAllocation {
            paper_trail_pct: 40,
            obsidian_pct: 20,
            reference_pct: 10,
            reasoning_pct: 30,
        },
        SessionClassification::Adjacent => BudgetAllocation {
            paper_trail_pct: 20,
            obsidian_pct: 30,
            reference_pct: 20,
            reasoning_pct: 30,
        },
        SessionClassification::NetNew => BudgetAllocation {
            paper_trail_pct: 5,
            obsidian_pct: 15,
            reference_pct: 20,
            reasoning_pct: 60,
        },
        SessionClassification::Quick => BudgetAllocation {
            paper_trail_pct: 0,
            obsidian_pct: 5,
            reference_pct: 35,
            reasoning_pct: 60,
        },
    }
}

/// The name under which a classification is shown.
pub open spec fn display_name_of(classification: SessionClassification) -> Seq<char> {
    match classification {
        SessionClassification::Fit => "Fit (matches thesis)"@,
        SessionClassification::Adjacent => "Adjacent (related)"@,
        SessionClassification::NetNew => "Net New (fresh)"@,
        SessionClassification::Quick => "Quick (ephemeral)"@,
    }
}

/// The part of `working_budget` that `pct` hundredths of it make, rounded
/// down, as it fits into a `u32`: where `pct` is above 100 and the part does
/// not fit, its low 32 bits.
pub open spec fn budget_part(working_budget: u32, pct: u8) -> u32 {
    ((working_budget as int * pct as int / 100) % 0x1_0000_0000) as u32
}

/// The four shares of every allocation sum to one hundred.
pub proof fn lemma_allocation_sums_to_hundred(classification: SessionClassification)
    ensures
        ({
            let a = allocation_of(classification);
            a.paper_trail_pct + a.obsidian_pct + a.reference_pct + a.reasoning_pct == 100
        }),
{
}

/// A share of at most one hundred hundredths is at most the whole budget, so
/// it is exact.
pub proof fn lemma_budget_part_exact(working_budget: u32, pct: u8)
    requires
        pct <= 100,
    ensures
        budget_part(working_budget, pct) == working_budget as int * pct as int / 100,
        budget_part(working_budget, pct) <= working_budget,
{
    assert(0 <= working_budget as int * pct as int / 100 <= working_budget) by (nonlinear_arith)
        requires
            0 <= pct <= 100,
    ;
}

impl SessionClassification {
    /// The budget allocation of this classification.
    pub fn get_allocation(&self) -> (allocation: BudgetAllocation)
        ensures
            allocation == allocation_of(*self),
            allocation.paper_trail_pct + allocation.obsidian_pct + allocation.reference_pct
                + allocation.reasoning_pct == 100,
    {
        match self {
            SessionClassification::Fit => BudgetAllocation {
                paper_trail_pct: 40,
                obsidian_pct: 20,
                reference_pct: 10,
                reasoning_pct: 30,
            },
            SessionClassification::Adjacent => BudgetAllocation {
                paper_trail_pct: 20,
                obsidian_pct: 30,
                reference_pct: 20,
                reasoning_pct: 30,
            },
            SessionClassification::NetNew => BudgetAllocation {
                paper_trail_pct: 5,
                obsidian_pct: 15,
                reference_pct: 20,
                reasoning_pct: 60,
            },
            SessionClassification::Quick => BudgetAllocation {
                paper_trail_pct: 0,
                obsidian_pct: 5,
                reference_pct: 35,
                reasoning_pct: 60,
            },
        }
    }

    /// The name under which this classification is shown.
    pub fn display_name(&self) -> (name: &'static str)
        ensures
            name@ == display_name_of(*self),
    {
        match self {
            SessionClassification::Fit => "Fit (matches thesis)",
            SessionClassification::Adjacent => "Adjacent (related)",
            SessionClassification::NetNew => "Net New (fresh)",
            SessionClassification::Quick => "Quick (ephemeral)",
        }
    }
}

/// Computes [`budget_part`].
fn part_of(working_budget: u32, pct: u8) -> (part: u32)
    ensures
        part == budget_part(working_budget, pct),
{
    assert(working_budget as int * pct as int <= 0xffff_ffff * 255) by (nonlinear_arith)
        requires
            0 <= working_budget <= 0xffff_ffff,
            0 <= pct <= 255,
    ;
    let product: u64 = working_budget as u64 * pct as u64;
    let quotient: u64 = product / 100;
    let low: u64 = quotient % 0x1_0000_0000;
    low as u32
}

impl BudgetAllocation {
    /// The token budget of each source, given the whole working budget.
    pub fn to_token_budgets(&self, working_budget: u32) -> (budgets: TokenBudgets)
        ensures
            budgets.paper_trail == budget_part(working_budget, self.paper_trail_pct),
            budgets.obsidian == budget_part(working_budget, self.obsidian_pct),
            budgets.reference == budget_part(working_budget, self.reference_pct),
            budgets.reasoning == budget_part(working_budget, self.reasoning_pct),
    {
        TokenBudgets {
            paper_trail: part_of(working_budget, self.paper_trail_pct),
            obsidian: part_of(working_budget, self.obsidian_pct),
            reference: part_of(working_budget, self.reference_pct),
            reasoning: part_of(working_budget, self.reasoning_pct),
        }
    }
}

impl TokenBudgets {
    /// The sum of the four budgets, where it fits into a `u32`.
    pub open spec fn total_of(&self) -> int {
        self.paper_trail + self.obsidian + self.reference + self.reasoning
    }

    /// The sum of the four budgets.
    pub fn total(&self) -> (sum: u32)
        requires
            self.total_of() <= u32::MAX,
        ensures
            sum == self.total_of(),
    {
        self.paper_trail + self.obsidian + self.reference + self.reasoning
    }

    /// The sum of the four budgets; nothing where it does not fit into a
    /// `u32`.
    pub fn checked_total(&self) -> (sum: Option<u32>)
        ensures
            sum == if self.total_of() <= u32::MAX {
                Some(self.total_of() as u32)
            } else {
                None::<u32>
            },
    {
        let wide: u64 = self.paper_trail as u64 + self.obsidian as u64 + self.reference as u64
            + self.reasoning as u64;
        if wide <= u32::MAX as u64 {
            Some(wide as u32)
        } else {
            None
        }
    }
}

/// Similarity from which a session fits a thesis: 0.8.
pub const SIMILARITY_FIT: u32 = 800_000;

/// Similarity from which a session is adjacent to a thesis: 0.4.
pub const SIMILARITY_ADJACENT: u32 = 400_000;

/// What is known of a session when it is classified.
///
/// Similarities are fixed-point numbers in millionths, between zero and one
/// whole.
#[derive(Debug, Clone)]
pub struct ClassificationSignals {
    /// Keywords from the title and description of the session.
    pub keywords: Vec<String>,
    /// Ids of theses that might be related.
    pub related_thesis_ids: Vec<String>,
    /// Similarity to each existing thesis.
    pub thesis_similarities: Vec<u32>,
    /// Whether the user marked the session as quick.
    pub user_marked_quick: bool,
    /// Whether the session has a paper trail already.
    pub has_paper_trail: bool,
}

impl Default for ClassificationSignals {
    fn default() -> (signals: Self)
        ensures
            signals.keywords@.len() == 0,
            signals.related_thesis_ids@.len() == 0,
            signals.thesis_similarities@.len() == 0,
            !signals.user_marked_quick,
            !signals.has_paper_trail,
    {
        ClassificationSignals {
            keywords: Vec::new(),
            related_thesis_ids: Vec::new(),
            thesis_similarities: Vec::new(),
            user_marked_quick: false,
            has_paper_trail: false,
        }
    }
}

/// Some similarity is at least `threshold`.
pub open spec fn reaches_similarity(similarities: Seq<u32>, threshold: u32) -> bool {
    exists|i: int| 0 <= i < similarities.len() && #[trigger] similarities[i] >= threshold
}

/// The classification that the signals call for.
///
/// The user's mark decides first. Else the greatest similarity decides: from
/// 0.8, `Fit`; from 0.4, or with a paper trail, `Adjacent`. A session of
/// which nothing is known (no related thesis, no keyword) is `Quick`, and
/// every other one `NetNew`.
pub open spec fn classification_of(
    user_marked_quick: bool,
    similarities: Seq<u32>,
    has_paper_trail: bool,
    related_theses: nat,
    keywords: nat,
) -> SessionClassification {
    if user_marked_quick {
        SessionClassification::Quick
    } else if reaches_similarity(similarities, SIMILARITY_FIT) {
        SessionClassification::Fit
    } else if reaches_similarity(similarities, SIMILARITY_ADJACENT) || has_paper_trail {
        SessionClassification::Adjacent
    } else if related_theses == 0 && keywords == 0 {
        SessionClassification::Quick
    } else {
        SessionClassification::NetNew
    }
}

/// The greatest of the similarities; zero where there is none.
pub fn max_similarity(similarities: &Vec<u32>) -> (max: u32)
    ensures
        forall|i: int| 0 <= i < similarities.len() ==> similarities[i] <= max,
        max == 0 || exists|i: int| 0 <= i < similarities.len() && similarities[i] == max,
{
    let mut max: u32 = 0;
    let mut i: usize = 0;
    while i < similarities.len()
        invariant
            i <= similarities.len(),
            forall|j: int| 0 <= j < i ==> similarities[j] <= max,
            max == 0 || exists|j: int| 0 <= j < i && similarities[j] == max,
        decreases similarities.len() - i,
    {
        if similarities[i] > max {
            max = similarities[i];
        }
        i += 1;
    }
    max
}

/// Classifies a session by its signals.
pub fn classify_session(signals: &ClassificationSignals) -> (classification: SessionClassification)
    ensures
        classification == classification_of(
            signals.user_marked_quick,
            signals.thesis_similarities@,
            signals.has_paper_trail,
            signals.related_thesis_ids@.len(),
            signals.keywords@.len(),
        ),
{
    if signals.user_marked_quick {
        return SessionClassification::Quick;
    }
    let max = max_similarity(&signals.thesis_similarities);
    if max >= SIMILARITY_FIT {
        SessionClassification::Fit
    } else if max >= SIMILARITY_ADJACENT || signals.has_paper_trail {
        SessionClassification::Adjacent
    } else if signals.related_thesis_ids.len() == 0 && signals.keywords.len() == 0 {
        SessionClassification::Quick
    } else {
        SessionClassification::NetNew
    }
}

} // verus!
