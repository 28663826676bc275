use chalk_core::coinductive::{classify_goal, IsCoinductive, TraitTable};
use chalk_core::interner::ChalkIr;
use chalk_core::ir::{
    Binders, Canonical, DomainGoal, Environment, EqGoal, FromEnv, Goal, GoalData, Goals,
    Identifier, InEnvironment, ItemId, LifetimeOutlives, Lifetime, LifetimeData, Normalize,
    Parameter, ParameterKind, ProjectionTy, QuantifierKind, SubtypeGoal, TraitRef, Ty, TyData,
    UCanonical, WellFormed, WhereClause,
};

const SEND: u32 = 1;
const CLONE: u32 = 2;
const COIND: u32 = 3;

fn db() -> TraitTable {
    TraitTable { auto_traits: vec![ItemId { index: SEND }], coinductive_traits: vec![ItemId { index: COIND }] }
}

fn ty(i: u32) -> Ty {
    Ty { interned: std::sync::Arc::new(TyData::BoundVar(i)) }
}

fn trait_ref(id: u32) -> TraitRef {
    TraitRef { trait_id: ItemId { index: id }, parameters: vec![Parameter { interned: ParameterKind::Ty(ty(0)) }] }
}

fn goal(data: GoalData) -> Goal {
    Goal::new(&ChalkIr, data)
}

fn implemented(id: u32) -> Goal {
    goal(GoalData::DomainGoal(DomainGoal::Holds(WhereClause::Implemented(trait_ref(id)))))
}

fn wf(id: u32) -> Goal {
    goal(GoalData::DomainGoal(DomainGoal::WellFormed(WellFormed::Trait(trait_ref(id)))))
}

#[test]
fn auto_trait_goal_is_coinductive() {
    assert!(implemented(SEND).is_coinductive(&db()));
}

#[test]
fn plain_trait_goal_is_inductive() {
    assert!(!implemented(CLONE).is_coinductive(&db()));
}

#[test]
fn declared_coinductive_trait_goal_is_coinductive() {
    assert!(implemented(COIND).is_coinductive(&db()));
}

#[test]
fn well_formed_trait_ref_is_coinductive() {
    assert!(wf(CLONE).is_coinductive(&db()));
    assert!(wf(SEND).is_coinductive(&db()));
    let empty = TraitTable { auto_traits: vec![], coinductive_traits: vec![] };
    assert!(wf(CLONE).is_coinductive(&empty));
}

#[test]
fn other_domain_goals_are_inductive() {
    let d = db();
    let l = |i| Lifetime { interned: LifetimeData::BoundVar(i) };
    let alias = WhereClause::AliasEq(Normalize {
        projection: ProjectionTy { trait_ref: trait_ref(SEND), name: Identifier { index: 0 } },
        ty: ty(1),
    });
    assert!(!goal(GoalData::DomainGoal(DomainGoal::Holds(alias))).is_coinductive(&d));
    let outlives = WhereClause::LifetimeOutlives(LifetimeOutlives { a: l(0), b: l(1) });
    assert!(!goal(GoalData::DomainGoal(DomainGoal::Holds(outlives))).is_coinductive(&d));
    assert!(!goal(GoalData::DomainGoal(DomainGoal::WellFormed(WellFormed::Ty(ty(0))))).is_coinductive(&d));
    assert!(!goal(GoalData::DomainGoal(DomainGoal::FromEnv(FromEnv::Trait(trait_ref(SEND))))).is_coinductive(&d));
}

#[test]
fn conjunction_is_coinductive() {
    let all = goal(GoalData::All(Goals { interned: vec![implemented(CLONE), implemented(SEND)] }));
    assert!(all.is_coinductive(&db()));
    let empty = goal(GoalData::All(Goals { interned: vec![] }));
    assert!(empty.is_coinductive(&db()));
}

#[test]
fn negation_equality_subtyping_and_cannot_prove_are_inductive() {
    let d = db();
    assert!(!goal(GoalData::Not(implemented(SEND))).is_coinductive(&d));
    let p = |i| Parameter { interned: ParameterKind::Ty(ty(i)) };
    assert!(!goal(GoalData::EqGoal(EqGoal { a: p(0), b: p(1) })).is_coinductive(&d));
    assert!(!goal(GoalData::SubtypeGoal(SubtypeGoal { a: ty(0), b: ty(1) })).is_coinductive(&d));
    assert!(!goal(GoalData::CannotProve).is_coinductive(&d));
}

#[test]
fn quantifiers_and_implications_keep_the_classification() {
    let d = db();
    for (inner, expected) in [(SEND, true), (CLONE, false)] {
        let forall = goal(GoalData::Quantified(
            QuantifierKind::ForAll,
            Binders { binders: vec![ParameterKind::Ty(())], value: implemented(inner) },
        ));
        assert_eq!(forall.is_coinductive(&d), expected);
        let exists = goal(GoalData::Quantified(
            QuantifierKind::Exists,
            Binders { binders: vec![], value: implemented(inner) },
        ));
        assert_eq!(exists.is_coinductive(&d), expected);
        let implies = goal(GoalData::Implies(vec![], implemented(inner)));
        assert_eq!(implies.is_coinductive(&d), expected);
        assert_eq!(classify_goal(&implies, &d), expected);
    }
    let nested = goal(GoalData::Implies(
        vec![],
        goal(GoalData::Quantified(QuantifierKind::ForAll, Binders { binders: vec![], value: wf(CLONE) })),
    ));
    assert!(nested.is_coinductive(&d));
}

#[test]
fn canonical_goal_is_classified_as_its_goal() {
    let d = db();
    let wrap = |g: Goal| UCanonical {
        canonical: Canonical {
            value: InEnvironment { environment: Environment { universe: 3, clauses: vec![] }, goal: g },
            binders: vec![ParameterKind::Lifetime(0)],
        },
        universes: 2,
    };
    assert!(wrap(implemented(SEND)).is_coinductive(&d));
    assert!(!wrap(implemented(CLONE)).is_coinductive(&d));
}
