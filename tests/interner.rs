use chalk_core::interner::{ChalkIr, HasInterner, Interner, ProgramNames, TargetInterner};
use chalk_core::ir::{
    ApplicationTy, DomainGoal, Goal, GoalData, Goals, ItemId, Lifetime, LifetimeData, Parameter,
    ParameterKind, Substitution, TraitRef, Ty, TyData, TypeName, WellFormed,
};

fn bound_ty(i: u32) -> Ty {
    Ty { interned: std::sync::Arc::new(TyData::BoundVar(i)) }
}

fn ty_param(i: u32) -> Parameter {
    Parameter { interned: ParameterKind::Ty(bound_ty(i)) }
}

fn lifetime_param(i: u32) -> Parameter {
    Parameter { interned: ParameterKind::Lifetime(Lifetime { interned: LifetimeData::BoundVar(i) }) }
}

fn vec_of_u8() -> TyData {
    TyData::Apply(ApplicationTy {
        name: TypeName::Item(ItemId { index: 7 }),
        parameters: vec![ty_param(0), lifetime_param(1)],
    })
}

#[test]
fn interned_type_reads_back_as_interned() {
    let i = ChalkIr;
    let interned = i.intern_ty(vec_of_u8());
    assert_eq!(i.ty_data(&interned), &vec_of_u8());
    let other = i.intern_ty(TyData::InferenceVar(3));
    assert_eq!(i.ty_data(&other), &TyData::InferenceVar(3));
}

#[test]
fn interned_lifetime_and_parameter_read_back() {
    let i = ChalkIr;
    let l = i.intern_lifetime(LifetimeData::Placeholder(2));
    assert_eq!(i.lifetime_data(&l), &LifetimeData::Placeholder(2));
    let p = i.intern_parameter(ParameterKind::Ty(bound_ty(5)));
    assert_eq!(i.parameter_data(&p), &ParameterKind::Ty(bound_ty(5)));
}

#[test]
fn interned_goal_and_goals_read_back() {
    let i = ChalkIr;
    let wf = GoalData::DomainGoal(DomainGoal::WellFormed(WellFormed::Trait(TraitRef {
        trait_id: ItemId { index: 1 },
        parameters: vec![ty_param(0)],
    })));
    let g = i.intern_goal(wf);
    let expected = GoalData::DomainGoal(DomainGoal::WellFormed(WellFormed::Trait(TraitRef {
        trait_id: ItemId { index: 1 },
        parameters: vec![ty_param(0)],
    })));
    assert_eq!(i.goal_data(&g), &expected);

    let goals = i.intern_goals(vec![Goal::new(&i, GoalData::CannotProve), Goal::new(&i, expected)]);
    let read = i.goals_data(&goals);
    assert_eq!(read.len(), 2);
    assert_eq!(read[0].data(&i), &GoalData::CannotProve);
}

#[test]
fn substitution_keeps_parameters_in_order() {
    let i = ChalkIr;
    let items: Vec<Result<Parameter, u8>> = vec![Ok(ty_param(0)), Ok(lifetime_param(1)), Ok(ty_param(2))];
    let s = i.intern_substitution(items).unwrap();
    assert_eq!(i.substitution_data(&s), &[ty_param(0), lifetime_param(1), ty_param(2)][..]);
}

#[test]
fn substitution_gives_back_first_error() {
    let i = ChalkIr;
    let items: Vec<Result<Parameter, u8>> = vec![Ok(ty_param(0)), Err(4), Ok(ty_param(2)), Err(9)];
    assert_eq!(i.intern_substitution(items), Err(4));
    let items: Vec<Result<Parameter, u8>> = vec![Err(1)];
    assert_eq!(Substitution::from_fallible(&i, items), Err(1));
}

#[test]
fn empty_substitution_is_empty() {
    let i = ChalkIr;
    let s = Substitution::from_fallible::<u8>(&i, Vec::new()).unwrap();
    assert!(s.as_slice(&i).is_empty());
}

#[test]
fn handles_read_back_their_data() {
    let i = ChalkIr;
    let t = Ty::new(&i, vec_of_u8());
    assert_eq!(t.data(&i), &vec_of_u8());
    let l = Lifetime::new(&i, LifetimeData::InferenceVar(8));
    assert_eq!(l.data(&i), &LifetimeData::InferenceVar(8));
    let p = Parameter::new(&i, ParameterKind::Lifetime(Lifetime { interned: LifetimeData::BoundVar(0) }));
    assert_eq!(p, lifetime_param(0));
    assert_eq!(p.data(&i), &lifetime_param(0).interned);
    let g = Goal::new(&i, GoalData::CannotProve);
    assert_eq!(g.data(&i), &GoalData::CannotProve);
    let gs = Goals::new(&i, vec![Goal::new(&i, GoalData::CannotProve)]);
    assert_eq!(gs.as_slice(&i).len(), 1);
}

#[test]
fn transfer_into_same_interner_is_identity() {
    let id = ItemId { index: 42 };
    assert_eq!(<ChalkIr as TargetInterner<ChalkIr>>::transfer_def_id(id), id);
}

fn interner_of<T: HasInterner>(_: &T) -> std::any::TypeId
where
    T::Interner: 'static,
{
    std::any::TypeId::of::<T::Interner>()
}

#[test]
fn has_interner_composes() {
    let chalk = std::any::TypeId::of::<ChalkIr>();
    assert_eq!(interner_of(&bound_ty(0)), chalk);
    assert_eq!(interner_of(&vec![bound_ty(0)]), chalk);
    assert_eq!(interner_of(&(bound_ty(0), lifetime_param(1))), chalk);
    assert_eq!(interner_of(&std::sync::Arc::new(Box::new(bound_ty(0)))), chalk);
}

fn names() -> ProgramNames {
    ProgramNames {
        entries: vec![
            (ItemId { index: 1 }, String::from("Send")),
            (ItemId { index: 2 }, String::from("Vec")),
            (ItemId { index: 1 }, String::from("Shadowed")),
        ],
    }
}

#[test]
fn hooks_have_no_opinion_without_names() {
    let id = ItemId { index: 1 };
    assert_eq!(ChalkIr::debug_trait_id(id, None), None);
    assert_eq!(ChalkIr::debug_struct_id(id, None), None);
    assert_eq!(ChalkIr::debug_assoc_type_id(id, None), None);
}

#[test]
fn hooks_render_names_from_the_program() {
    let n = names();
    assert_eq!(ChalkIr::debug_trait_id(ItemId { index: 1 }, Some(&n)), Some(String::from("Send")));
    assert_eq!(ChalkIr::debug_struct_id(ItemId { index: 2 }, Some(&n)), Some(String::from("Vec")));
    assert_eq!(ChalkIr::debug_assoc_type_id(ItemId { index: 9 }, Some(&n)), None);
}

#[test]
fn lookup_takes_the_first_entry() {
    let n = names();
    assert_eq!(n.lookup(ItemId { index: 1 }), Some(String::from("Send")));
    assert_eq!(ProgramNames { entries: vec![] }.lookup(ItemId { index: 1 }), None);
}

#[test]
fn cloned_handles_share_their_data() {
    let i = ChalkIr;
    let t = Ty::new(&i, vec_of_u8());
    let u = t.clone();
    assert!(std::sync::Arc::ptr_eq(&t.interned, &u.interned));
    assert_eq!(t, u);
    let g = Goal::new(&i, GoalData::CannotProve);
    assert_eq!(g.clone().data(&i), &GoalData::CannotProve);
}

#[test]
fn composite_values_get_the_default_output() {
    let n = names();
    let tr = TraitRef { trait_id: ItemId { index: 1 }, parameters: vec![ty_param(0)] };
    assert_eq!(ChalkIr::debug_separator_trait_ref(&tr, Some(&n)), None);
    assert_eq!(ChalkIr::debug_separator_trait_ref(&tr, None), None);
    assert_eq!(ChalkIr::debug_ty(&bound_ty(0), Some(&n)), None);
    assert_eq!(ChalkIr::debug_goal(&Goal::new(&ChalkIr, GoalData::CannotProve), None), None);
}
