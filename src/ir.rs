//! The structural vocabulary shared by the matcher and the goal classifier:
//! identifiers, types, lifetimes, trait references, clauses, environments and
//! goals.
use vstd::prelude::*;
use std::sync::Arc;

verus! {

/// A definition id (struct, trait, associated type).
#[derive(Clone, Copy, Debug, PartialEq, Eq, Structural, PartialOrd, Ord, Hash)]
pub struct ItemId {
    pub index: u32,
}

/// An interned name (the name of an associated type, for instance).
#[derive(Clone, Copy, Debug, PartialEq, Eq, Structural, Hash)]
pub struct Identifier {
    pub index: u32,
}

/// The head of an application type.
#[derive(Clone, Copy, Debug, PartialEq, Eq, Structural, Hash)]
pub enum TypeName {
    Item(ItemId),
    AssociatedType(ItemId),
    Placeholder(u32),
}

/// A value that is either of type kind or of lifetime kind.
#[derive(Clone, Debug, PartialEq, Eq, Hash)]
pub enum ParameterKind<T, L> {
    Ty(T),
    Lifetime(L),
}

/// Handle of a type.
#[derive(Clone, Debug, PartialEq, Eq, Hash)]
pub struct Ty {
    pub interned: Arc<TyData>,
}

/// The structural view of a type.
#[derive(Clone, Debug, PartialEq, Eq, Hash)]
pub enum TyData {
    Apply(ApplicationTy),
    Projection(ProjectionTy),
    BoundVar(u32),
    InferenceVar(u32),
}

/// Handle of a lifetime.
#[derive(Clone, Debug, PartialEq, Eq, Hash)]
pub struct Lifetime {
    pub interned: LifetimeData,
}

/// The structural view of a lifetime.
#[derive(Clone, Copy, Debug, PartialEq, Eq, Structural, Hash)]
pub enum LifetimeData {
    BoundVar(u32),
    InferenceVar(u32),
    Placeholder(u32),
}

/// The structural view of a generic parameter.
pub type ParameterData = ParameterKind<Ty, Lifetime>;

/// Handle of a generic parameter.
#[derive(Clone, Debug, PartialEq, Eq, Hash)]
pub struct Parameter {
    pub interned: ParameterData,
}

/// Handle of an ordered list of parameters.
#[derive(Clone, Debug, PartialEq, Eq, Hash)]
pub struct Substitution {
    pub interned: Vec<Parameter>,
}

/// `parameters[0]: trait_id<parameters[1..]>`
#[derive(Clone, Debug, PartialEq, Eq, Hash)]
pub struct TraitRef {
    pub trait_id: ItemId,
    pub parameters: Vec<Parameter>,
}

#[derive(Clone, Debug, PartialEq, Eq, Hash)]
pub struct ApplicationTy {
    pub name: TypeName,
    pub parameters: Vec<Parameter>,
}

/// `<trait_ref as Trait>::name`
#[derive(Clone, Debug, PartialEq, Eq, Hash)]
pub struct ProjectionTy {
    pub trait_ref: TraitRef,
    pub name: Identifier,
}

/// `projection == ty`
#[derive(Clone, Debug, PartialEq, Eq, Hash)]
pub struct Normalize {
    pub projection: ProjectionTy,
    pub ty: Ty,
}

/// `a: b`
#[derive(Clone, Debug, PartialEq, Eq, Hash)]
pub struct LifetimeOutlives {
    pub a: Lifetime,
    pub b: Lifetime,
}

/// `ty: lifetime`
#[derive(Clone, Debug, PartialEq, Eq, Hash)]
pub struct TypeOutlives {
    pub ty: Ty,
    pub lifetime: Lifetime,
}

#[derive(Clone, Debug, PartialEq, Eq, Hash)]
pub enum WhereClause {
    Implemented(TraitRef),
    AliasEq(Normalize),
    LifetimeOutlives(LifetimeOutlives),
    TypeOutlives(TypeOutlives),
}

#[derive(Clone, Debug, PartialEq, Eq, Hash)]
pub enum WhereClauseGoal {
    Implemented(TraitRef),
    Normalize(Normalize),
}

/// `consequence :- conditions`
#[derive(Clone, Debug, PartialEq, Eq, Hash)]
pub struct ProgramClause {
    pub consequence: WhereClause,
    pub conditions: Vec<WhereClause>,
}

/// The hypotheses in scope, in a given universe.
#[derive(Clone, Debug, PartialEq, Eq, Hash)]
pub struct Environment {
    pub universe: u32,
    pub clauses: Vec<ProgramClause>,
}

#[derive(Clone, Debug, PartialEq, Eq, Hash)]
pub struct InEnvironment<G> {
    pub environment: Environment,
    pub goal: G,
}

/// A value under a list of bound parameters.
#[derive(Clone, Debug, PartialEq, Eq, Hash)]
pub struct Binders<T> {
    pub binders: Vec<ParameterKind<(), ()>>,
    pub value: T,
}

impl<T> Binders<T> {
    /// The bound value, with the binders stripped.
    pub fn skip_binders(&self) -> (r: &T)
        ensures
            *r == self.value,
    {
        &self.value
    }
}

/// A value whose free variables are listed in `binders`.
#[derive(Clone, Debug, PartialEq, Eq, Hash)]
pub struct Canonical<T> {
    pub value: T,
    pub binders: Vec<ParameterKind<u32, u32>>,
}

/// A canonical value closed under `universes` universes.
#[derive(Clone, Debug, PartialEq, Eq, Hash)]
pub struct UCanonical<T> {
    pub canonical: Canonical<T>,
    pub universes: u32,
}

#[derive(Clone, Debug, PartialEq, Eq, Hash)]
pub enum WellFormed {
    Trait(TraitRef),
    Ty(Ty),
}

#[derive(Clone, Debug, PartialEq, Eq, Hash)]
pub enum FromEnv {
    Trait(TraitRef),
    Ty(Ty),
}

#[derive(Clone, Debug, PartialEq, Eq, Hash)]
pub enum DomainGoal {
    Holds(WhereClause),
    WellFormed(WellFormed),
    FromEnv(FromEnv),
}

#[derive(Clone, Copy, Debug, PartialEq, Eq, Structural, Hash)]
pub enum QuantifierKind {
    ForAll,
    Exists,
}

/// `a = b`
#[derive(Clone, Debug, PartialEq, Eq, Hash)]
pub struct EqGoal {
    pub a: Parameter,
    pub b: Parameter,
}

/// `a <: b`
#[derive(Clone, Debug, PartialEq, Eq, Hash)]
pub struct SubtypeGoal {
    pub a: Ty,
    pub b: Ty,
}

/// Handle of a goal.
#[derive(Clone, Debug, PartialEq, Eq, Hash)]
pub struct Goal {
    pub interned: Arc<GoalData>,
}

/// Handle of a list of goals.
#[derive(Clone, Debug, PartialEq, Eq, Hash)]
pub struct Goals {
    pub interned: Vec<Goal>,
}

/// The structural view of a goal.
#[derive(Clone, Debug, PartialEq, Eq, Hash)]
pub enum GoalData {
    Quantified(QuantifierKind, Binders<Goal>),
    Implies(Vec<ProgramClause>, Goal),
    All(Goals),
    Not(Goal),
    EqGoal(EqGoal),
    SubtypeGoal(SubtypeGoal),
    DomainGoal(DomainGoal),
    CannotProve,
}

} // verus!
