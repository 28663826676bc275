use chalk_core::ir::{
    ApplicationTy, Environment, Identifier, InEnvironment, ItemId, Lifetime, LifetimeData,
    LifetimeOutlives, Normalize, Parameter, ParameterKind, ProgramClause, ProjectionTy, TraitRef,
    Ty, TyData, TypeName, TypeOutlives, WhereClause, WhereClauseGoal,
};
use chalk_core::zip::{LeafCounter, ShapeTag, Token, Zip, ZipError};
use std::sync::Arc;

fn ty(i: u32) -> Ty {
    Ty { interned: std::sync::Arc::new(TyData::BoundVar(i)) }
}

fn lt(i: u32) -> Lifetime {
    Lifetime { interned: LifetimeData::BoundVar(i) }
}

fn ty_param(i: u32) -> Parameter {
    Parameter { interned: ParameterKind::Ty(ty(i)) }
}

fn lt_param(i: u32) -> Parameter {
    Parameter { interned: ParameterKind::Lifetime(lt(i)) }
}

fn trait_ref(id: u32, params: Vec<Parameter>) -> TraitRef {
    TraitRef { trait_id: ItemId { index: id }, parameters: params }
}

fn normalize(id: u32) -> Normalize {
    Normalize {
        projection: ProjectionTy { trait_ref: trait_ref(id, vec![ty_param(0)]), name: Identifier { index: 3 } },
        ty: ty(1),
    }
}

#[test]
fn zipping_a_value_with_itself_succeeds() {
    let mut z = LeafCounter::new();
    let a = WhereClause::Implemented(trait_ref(1, vec![ty_param(0), lt_param(1), ty_param(2)]));
    assert_eq!(WhereClause::zip_with(&mut z, &a, &a), Ok(()));
    assert_eq!((z.tys, z.lifetimes), (2, 1));

    let n = WhereClause::AliasEq(normalize(4));
    let mut z = LeafCounter::new();
    assert_eq!(WhereClause::zip_with(&mut z, &n, &n), Ok(()));
    assert_eq!((z.tys, z.lifetimes), (2, 0));
}

#[test]
fn zipping_environments_with_themselves_succeeds() {
    let env = Environment {
        universe: 2,
        clauses: vec![ProgramClause {
            consequence: WhereClause::Implemented(trait_ref(1, vec![ty_param(0)])),
            conditions: vec![
                WhereClause::LifetimeOutlives(LifetimeOutlives { a: lt(0), b: lt(1) }),
                WhereClause::TypeOutlives(TypeOutlives { ty: ty(2), lifetime: lt(3) }),
            ],
        }],
    };
    let goal = InEnvironment { environment: env, goal: trait_ref(5, vec![lt_param(0)]) };
    let mut z = LeafCounter::new();
    assert_eq!(InEnvironment::zip_with(&mut z, &goal, &goal), Ok(()));
    assert_eq!((z.tys, z.lifetimes), (2, 4));
}

#[test]
fn sequences_of_lengths_two_and_three_do_not_zip() {
    let mut z = LeafCounter::new();
    let a = vec![ty_param(0), ty_param(1)];
    let b = vec![ty_param(0), ty_param(1), ty_param(2)];
    assert_eq!(Vec::<Parameter>::zip_with(&mut z, &a, &b), Err(ZipError::ArityMismatch(2, 3)));
    assert_eq!(z.tys, 0);
    let a = vec![lt(4), lt(5)];
    let b = vec![lt(0), lt(0), lt(0)];
    assert_eq!(Vec::<Lifetime>::zip_with(&mut z, &a, &b), Err(ZipError::ArityMismatch(2, 3)));
}

#[test]
fn empty_sequences_zip() {
    let mut z = LeafCounter::new();
    let a: Vec<Ty> = Vec::new();
    assert_eq!(Vec::<Ty>::zip_with(&mut z, &a, &a), Ok(()));
    assert_eq!(Vec::<Ty>::zip_with(&mut z, &a, &vec![ty(0)]), Err(ZipError::ArityMismatch(0, 1)));
}

#[test]
fn where_clauses_with_different_tags_do_not_zip() {
    let mut z = LeafCounter::new();
    let a = WhereClause::Implemented(trait_ref(1, vec![ty_param(0)]));
    let b = WhereClause::AliasEq(normalize(1));
    assert_eq!(
        WhereClause::zip_with(&mut z, &a, &b),
        Err(ZipError::ShapeMismatch(ShapeTag::Implemented, ShapeTag::AliasEq))
    );
    assert_eq!(
        WhereClause::zip_with(&mut z, &b, &a),
        Err(ZipError::ShapeMismatch(ShapeTag::AliasEq, ShapeTag::Implemented))
    );
    let g = WhereClauseGoal::Implemented(trait_ref(1, vec![ty_param(0)]));
    let h = WhereClauseGoal::Normalize(normalize(1));
    assert_eq!(
        WhereClauseGoal::zip_with(&mut z, &g, &h),
        Err(ZipError::ShapeMismatch(ShapeTag::Implemented, ShapeTag::Normalize))
    );
}

#[test]
fn implemented_clauses_zip_as_their_trait_refs() {
    let mut z = LeafCounter::new();
    let a = WhereClause::Implemented(trait_ref(1, vec![ty_param(0), lt_param(1)]));
    let b = WhereClause::Implemented(trait_ref(1, vec![ty_param(7), lt_param(8)]));
    assert_eq!(WhereClause::zip_with(&mut z, &a, &b), Ok(()));
    let c = WhereClause::Implemented(trait_ref(2, vec![ty_param(0), lt_param(1)]));
    assert_eq!(
        WhereClause::zip_with(&mut z, &a, &c),
        Err(ZipError::TokenMismatch(Token::Item(ItemId { index: 1 }), Token::Item(ItemId { index: 2 })))
    );
    let d = WhereClause::Implemented(trait_ref(1, vec![ty_param(0)]));
    assert_eq!(WhereClause::zip_with(&mut z, &a, &d), Err(ZipError::ArityMismatch(2, 1)));
}

#[test]
fn unequal_tokens_do_not_zip() {
    let mut z = LeafCounter::new();
    let a = ApplicationTy { name: TypeName::Item(ItemId { index: 1 }), parameters: vec![] };
    let b = ApplicationTy { name: TypeName::Placeholder(1), parameters: vec![] };
    assert_eq!(
        ApplicationTy::zip_with(&mut z, &a, &b),
        Err(ZipError::TokenMismatch(
            Token::TypeName(TypeName::Item(ItemId { index: 1 })),
            Token::TypeName(TypeName::Placeholder(1))
        ))
    );
    let p = ProjectionTy { trait_ref: trait_ref(1, vec![]), name: Identifier { index: 1 } };
    let q = ProjectionTy { trait_ref: trait_ref(1, vec![]), name: Identifier { index: 2 } };
    assert_eq!(
        ProjectionTy::zip_with(&mut z, &p, &q),
        Err(ZipError::TokenMismatch(Token::Identifier(Identifier { index: 1 }), Token::Identifier(Identifier { index: 2 })))
    );
    assert_eq!(ItemId::zip_with(&mut z, &ItemId { index: 3 }, &ItemId { index: 3 }), Ok(()));
}

#[test]
fn pairs_shared_pointers_and_references_zip() {
    let mut z = LeafCounter::new();
    let a = (ty(0), lt(1));
    assert_eq!(<(Ty, Lifetime)>::zip_with(&mut z, &a, &a), Ok(()));
    let s = Arc::new(trait_ref(1, vec![ty_param(0)]));
    assert_eq!(Arc::<TraitRef>::zip_with(&mut z, &s, &s), Ok(()));
    let r = &ItemId { index: 9 };
    assert_eq!(<&ItemId>::zip_with(&mut z, &r, &&ItemId { index: 8 }).is_err(), true);
    assert_eq!((z.tys, z.lifetimes), (2, 1));
}

#[test]
fn a_borrowed_zipper_forwards_to_its_target() {
    let mut z = LeafCounter::new();
    {
        let mut borrowed = &mut z;
        let a = vec![ty(0), ty(1)];
        assert_eq!(Vec::<Ty>::zip_with(&mut borrowed, &a, &a), Ok(()));
    }
    assert_eq!(z.tys, 2);
}

/// Accepts a pair of leaves only when they are equal, and keeps the pairs it
/// was handed.
struct EqualLeaves {
    seen: Vec<(Ty, Ty)>,
}

impl chalk_core::zip::Zipper for EqualLeaves {
    fn ty_step(&self, a: Ty, b: Ty, next: &Self, r: Result<(), ZipError>) -> bool {
        r.is_ok() == (a == b) && next.seen.len() == self.seen.len() + 1
    }

    fn lifetime_step(&self, a: Lifetime, b: Lifetime, next: &Self, r: Result<(), ZipError>) -> bool {
        r.is_ok() == (a == b) && next.seen.len() == self.seen.len()
    }

    fn zip_tys(&mut self, a: &Ty, b: &Ty) -> Result<(), ZipError> {
        self.seen.push((a.clone(), b.clone()));
        if a == b { Ok(()) } else { Err(ZipError::LeafMismatch) }
    }

    fn zip_lifetimes(&mut self, a: &Lifetime, b: &Lifetime) -> Result<(), ZipError> {
        if a == b { Ok(()) } else { Err(ZipError::LeafMismatch) }
    }
}

#[test]
fn the_first_refused_leaf_ends_the_walk() {
    let mut z = EqualLeaves { seen: Vec::new() };
    let a = vec![ty_param(0), ty_param(1), ty_param(2)];
    let b = vec![ty_param(0), ty_param(5), ty_param(6)];
    assert_eq!(Vec::<Parameter>::zip_with(&mut z, &a, &b), Err(ZipError::LeafMismatch));
    assert_eq!(z.seen, vec![(ty(0), ty(0)), (ty(1), ty(5))]);
    let mut z = EqualLeaves { seen: Vec::new() };
    assert_eq!(Vec::<Parameter>::zip_with(&mut z, &a, &a), Ok(()));
    assert_eq!(z.seen.len(), 3);
}

#[test]
fn a_mismatch_of_the_walk_makes_no_callback() {
    let mut z = EqualLeaves { seen: Vec::new() };
    let a = WhereClause::Implemented(trait_ref(1, vec![ty_param(0)]));
    let b = WhereClause::Implemented(trait_ref(2, vec![ty_param(0)]));
    assert!(WhereClause::zip_with(&mut z, &a, &b).is_err());
    let c = WhereClause::AliasEq(normalize(1));
    assert!(WhereClause::zip_with(&mut z, &a, &c).is_err());
    assert!(Vec::<Parameter>::zip_with(&mut z, &vec![ty_param(0)], &vec![]).is_err());
    assert!(z.seen.is_empty());
}

#[test]
fn later_parts_are_not_zipped_after_a_failure() {
    let mut z = EqualLeaves { seen: Vec::new() };
    let a = Normalize { projection: normalize(1).projection, ty: ty(1) };
    let mut b = Normalize { projection: normalize(1).projection, ty: ty(2) };
    b.projection.trait_ref.parameters = vec![ty_param(9)];
    assert_eq!(Normalize::zip_with(&mut z, &a, &b), Err(ZipError::LeafMismatch));
    assert_eq!(z.seen, vec![(ty(0), ty(9))]);
}

#[test]
fn leaf_counter_saturates() {
    let mut z = LeafCounter { tys: u64::MAX, lifetimes: 0 };
    assert_eq!(Ty::zip_with(&mut z, &ty(0), &ty(1)), Ok(()));
    assert_eq!((z.tys, z.lifetimes), (u64::MAX, 0));
    assert_eq!(Lifetime::zip_with(&mut z, &lt(0), &lt(0)), Ok(()));
    assert_eq!((z.tys, z.lifetimes), (u64::MAX, 1));
}
