//! Which goals admit coinductive proof: a goal with coinductive semantics may
//! be assumed true while it is being proved, so that a cycle back to it is a
//! success rather than a divergence.
use vstd::prelude::*;
use crate::interner::{ChalkIr, Interner};
use crate::ir::{
    Binders, DomainGoal, Goal, GoalData, Goals, InEnvironment, ItemId, ParameterKind,
    ProgramClause, QuantifierKind, TraitRef, UCanonical, WellFormed, WhereClause,
};

verus! {

/// The facts about traits that the classification consults.
pub trait RustIrDatabase {
    /// `trait_id` names an auto trait.
    spec fn auto_trait(&self, trait_id: ItemId) -> bool;

    /// `trait_id` names a trait declared coinductive.
    spec fn coinductive_trait(&self, trait_id: ItemId) -> bool;

    fn interner(&self) -> ChalkIr;

    fn is_auto_trait(&self, trait_id: ItemId) -> (r: bool)
        ensures
            r == self.auto_trait(trait_id),
    ;

    fn is_coinductive_trait(&self, trait_id: ItemId) -> (r: bool)
        ensures
            r == self.coinductive_trait(trait_id),
    ;
}

/// A database of trait facts held as two lists of trait ids.
pub struct TraitTable {
    pub auto_traits: Vec<ItemId>,
    pub coinductive_traits: Vec<ItemId>,
}

fn contains_id(ids: &Vec<ItemId>, id: ItemId) -> (r: bool)
    ensures
        r == ids@.contains(id),
{
    let mut i: usize = 0;
    while i < ids.len()
        invariant
            i <= ids.len(),
            forall|j: int| 0 <= j < i ==> ids@[j] != id,
        decreases ids.len() - i,
    {
        if ids[i] == id {
            return true;
        }
        i = i + 1;
    }
    false
}

impl RustIrDatabase for TraitTable {
    open spec fn auto_trait(&self, trait_id: ItemId) -> bool {
        self.auto_traits@.contains(trait_id)
    }

    open spec fn coinductive_trait(&self, trait_id: ItemId) -> bool {
        self.coinductive_traits@.contains(trait_id)
    }

    fn interner(&self) -> ChalkIr {
        ChalkIr
    }

    fn is_auto_trait(&self, trait_id: ItemId) -> (r: bool) {
        contains_id(&self.auto_traits, trait_id)
    }

    fn is_coinductive_trait(&self, trait_id: ItemId) -> (r: bool) {
        contains_id(&self.coinductive_traits, trait_id)
    }
}

/// The classification of a goal:
/// - `T: Trait` is coinductive iff `Trait` is an auto trait or declared
///   coinductive;
/// - the well-formedness of a trait reference is coinductive;
/// - every other domain goal is inductive;
/// - a quantified goal is classified as its body, an implication as its
///   conclusion;
/// - a conjunction is coinductive, whatever its parts: it is no different
///   from a fresh coinductive rule `Gx :- G1, ..., Gn` asked in its place;
/// - negation, equality, subtyping and `CannotProve` are inductive.
pub open spec fn goal_is_coinductive<D: RustIrDatabase>(goal: GoalData, db: &D) -> bool
    decreases goal,
{
    match goal {
        GoalData::DomainGoal(DomainGoal::Holds(WhereClause::Implemented(tr))) => db.auto_trait(
            tr.trait_id,
        ) || db.coinductive_trait(tr.trait_id),
        GoalData::DomainGoal(DomainGoal::WellFormed(WellFormed::Trait(_))) => true,
        GoalData::DomainGoal(_) => false,
        GoalData::Quantified(_, body) => goal_is_coinductive(*body.value.interned, db),
        GoalData::Implies(_, conclusion) => goal_is_coinductive(*conclusion.interned, db),
        GoalData::All(_) => true,
        GoalData::Not(_) => false,
        GoalData::EqGoal(_) => false,
        GoalData::CannotProve => false,
        GoalData::SubtypeGoal(_) => false,
    }
}

/// Classifies `goal` as coinductive (true) or inductive (false).
pub fn classify_goal<D: RustIrDatabase>(goal: &Goal, db: &D) -> (r: bool)
    ensures
        r == goal_is_coinductive(*goal.interned, db),
    decreases goal,
{
    let interner = db.interner();
    match interner.goal_data(&goal.interned) {
        GoalData::DomainGoal(DomainGoal::Holds(wca)) => match wca {
            WhereClause::Implemented(tr) => {
                db.is_auto_trait(tr.trait_id) || db.is_coinductive_trait(tr.trait_id)
            },
            WhereClause::AliasEq(_) => false,
            WhereClause::LifetimeOutlives(_) => false,
            WhereClause::TypeOutlives(_) => false,
        },
        GoalData::DomainGoal(DomainGoal::WellFormed(WellFormed::Trait(_))) => true,
        GoalData::DomainGoal(_) => false,
        GoalData::Quantified(_, body) => classify_goal(body.skip_binders(), db),
        GoalData::Implies(_, conclusion) => classify_goal(conclusion, db),
        GoalData::All(_) => true,
        GoalData::Not(_) => false,
        GoalData::EqGoal(_) => false,
        GoalData::CannotProve => false,
        GoalData::SubtypeGoal(_) => false,
    }
}

/// A goal that can be classified as coinductive or inductive against the
/// trait facts of `D`.
pub trait IsCoinductive<D: RustIrDatabase> {
    spec fn coinductive(&self, db: &D) -> bool;

    /// A goal G is coinductive if proving G may assume that G holds.
    fn is_coinductive(&self, db: &D) -> (r: bool)
        ensures
            r == self.coinductive(db),
    ;
}

impl<D: RustIrDatabase> IsCoinductive<D> for Goal {
    open spec fn coinductive(&self, db: &D) -> bool {
        goal_is_coinductive(*self.interned, db)
    }

    fn is_coinductive(&self, db: &D) -> (r: bool) {
        classify_goal(self, db)
    }
}

/// A canonical goal in an environment is classified as its goal; the
/// environment and the universes play no part.
impl<D: RustIrDatabase> IsCoinductive<D> for UCanonical<InEnvironment<Goal>> {
    open spec fn coinductive(&self, db: &D) -> bool {
        goal_is_coinductive(*self.canonical.value.goal.interned, db)
    }

    fn is_coinductive(&self, db: &D) -> (r: bool) {
        classify_goal(&self.canonical.value.goal, db)
    }
}

/// Quantifying a goal, or using it as the conclusion of an implication, leaves
/// its classification unchanged.
pub proof fn lemma_quantifier_implication_transparent<D: RustIrDatabase>(
    kind: QuantifierKind,
    binders: Vec<ParameterKind<(), ()>>,
    hypotheses: Vec<ProgramClause>,
    goal: Goal,
    db: &D,
)
    ensures
        goal_is_coinductive(
            GoalData::Quantified(kind, Binders { binders, value: goal }),
            db,
        ) == goal_is_coinductive(*goal.interned, db),
        goal_is_coinductive(GoalData::Implies(hypotheses, goal), db) == goal_is_coinductive(
            *goal.interned,
            db,
        ),
{
}

/// The rows of the classification that do not depend on the trait facts:
/// the well-formedness of any trait reference and any conjunction are
/// coinductive, the negation of any goal is inductive.
pub proof fn lemma_fixed_classifications<D: RustIrDatabase>(
    trait_ref: TraitRef,
    goals: Goals,
    goal: Goal,
    db: &D,
)
    ensures
        goal_is_coinductive(
            GoalData::DomainGoal(DomainGoal::WellFormed(WellFormed::Trait(trait_ref))),
            db,
        ),
        goal_is_coinductive(GoalData::All(goals), db),
        !goal_is_coinductive(GoalData::Not(goal), db),
{
}

} // verus!
