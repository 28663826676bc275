//! The interning layer: how an embedding stores each kind of IR leaf, and the
//! two-way conversion between that storage and the structural view.
use vstd::prelude::*;
use std::fmt::Debug;
use std::hash::Hash;
use std::marker::PhantomData;
use std::sync::Arc;
use crate::ir::{
    ApplicationTy, Goal, GoalData, Goals, Identifier, ItemId, Lifetime, LifetimeData, Parameter,
    ParameterData, ProgramClause, ProjectionTy, Substitution, TraitRef, Ty, TyData,
};

verus! {

/// The parameters of `items` in order, when every item is `Ok`.
pub open spec fn ok_parameters<E>(items: Seq<Result<Parameter, E>>) -> Seq<Parameter> {
    items.map_values(|x: Result<Parameter, E>| x->Ok_0)
}

/// The position of the first `Err` of `items`.
pub open spec fn is_first_error<E>(items: Seq<Result<Parameter, E>>, i: int) -> bool {
    &&& 0 <= i < items.len()
    &&& items[i] is Err
    &&& forall|j: int| 0 <= j < i ==> items[j] is Ok
}

/// Collects the parameters of `items` in order, or gives back the first
/// error among them.
pub fn collect_parameters<E>(items: Vec<Result<Parameter, E>>) -> (r: Result<Vec<Parameter>, E>)
    ensures
        (forall|i: int| 0 <= i < items.len() ==> items@[i] is Ok) ==> r is Ok && r->Ok_0@
            == ok_parameters(items@),
        forall|i: int|
            is_first_error(items@, i) ==> r == Err::<Vec<Parameter>, E>(items@[i]->Err_0),
{
    let n: usize = items.len();
    let ghost all = items@;
    let mut rest = items;
    let mut out: Vec<Parameter> = Vec::new();
    let mut k: usize = 0;
    while rest.len() > 0
        invariant
            k + rest.len() == all.len(),
            all.len() == n,
            items@ == all,
            rest@ == all.subrange(k as int, all.len() as int),
            out@ == ok_parameters(all.subrange(0, k as int)),
            forall|j: int| 0 <= j < k ==> all[j] is Ok,
        decreases rest.len(),
    {
        let item = rest.remove(0);
        proof {
            assert(item == all[k as int]);
        }
        match item {
            Ok(p) => {
                out.push(p);
                proof {
                    assert(all.subrange(0, k + 1) == all.subrange(0, k as int).push(all[k as int]));
                }
                k = k + 1;
            },
            Err(e) => {
                proof {
                    assert(all[k as int] is Err);
                    assert forall|i: int| is_first_error(all, i) implies i == k by {
                        if i < k {
                        } else if i > k {
                            assert(all[k as int] is Ok);
                        }
                    }
                }
                return Err(e);
            },
        }
    }
    proof {
        assert(all.subrange(0, k as int) == all);
    }
    Ok(out)
}

/// The names of definitions, consulted when IR values are printed.
pub struct ProgramNames {
    pub entries: Vec<(ItemId, String)>,
}

/// The name that `entries` gives to `id`: that of its first entry for `id`.
pub open spec fn name_in(entries: Seq<(ItemId, String)>, id: ItemId) -> Option<Seq<char>>
    decreases entries.len(),
{
    if entries.len() == 0 {
        None
    } else if entries[0].0 == id {
        Some(entries[0].1@)
    } else {
        name_in(entries.drop_first(), id)
    }
}

/// The text that a printing hook returned, if any.
pub open spec fn text_of(r: Option<String>) -> Option<Seq<char>> {
    match r {
        Some(s) => Some(s@),
        None => None,
    }
}

impl ProgramNames {
    pub open spec fn name_of(&self, id: ItemId) -> Option<Seq<char>> {
        name_in(self.entries@, id)
    }

    /// The name of `id`, if the table holds one.
    pub fn lookup(&self, id: ItemId) -> (r: Option<String>)
        ensures
            text_of(r) == self.name_of(id),
    {
        let mut i: usize = 0;
        proof {
            assert(self.entries@.subrange(0, self.entries@.len() as int) == self.entries@);
        }
        while i < self.entries.len()
            invariant
                i <= self.entries.len(),
                name_in(self.entries@, id) == name_in(
                    self.entries@.subrange(i as int, self.entries@.len() as int),
                    id,
                ),
            decreases self.entries.len() - i,
        {
            let ghost rest = self.entries@.subrange(i as int, self.entries@.len() as int);
            proof {
                assert(rest.drop_first() == self.entries@.subrange(
                    i + 1,
                    self.entries@.len() as int,
                ));
            }
            if self.entries[i].0 == id {
                return Some(self.entries[i].1.clone());
            }
            i = i + 1;
        }
        None
    }
}

/// How one embedding stores the leaves of the IR.
///
/// Each `intern_*` operation stores a structural value and each `*_data`
/// operation reads it back: reading an interned value gives exactly the value
/// that was interned.
pub trait Interner: Sized + Copy + Debug + Eq + Ord + Hash {
    type InternedType: Clone + Debug + Eq + Hash;

    type InternedLifetime: Clone + Debug + Eq + Hash;

    type InternedParameter: Clone + Debug + Eq + Hash;

    type InternedGoal: Clone + Debug + Eq + Hash;

    type InternedGoals: Clone + Debug + Eq + Hash;

    type InternedSubstitution: Clone + Debug + Eq + Hash;

    /// The id of a definition (struct, trait, associated type).
    type DefId: Copy + Debug + Eq + Ord + Hash;

    /// The representation of names (of associated types, for instance).
    type Identifier: Clone + Debug + Eq + Hash;

    /// The text that the printing hooks give for `id` with the names of
    /// `program` at hand.
    spec fn rendered_id(id: ItemId, program: &ProgramNames) -> Option<Seq<char>>;

    /// Renders a struct id; `None` asks for the default structural output,
    /// which is always the answer when no names are at hand.
    fn debug_struct_id(id: ItemId, program: Option<&ProgramNames>) -> (r: Option<String>)
        ensures
            program is None ==> r is None,
            program matches Some(p) ==> text_of(r) == Self::rendered_id(id, p),
    ;

    /// Renders a trait id; `None` asks for the default structural output,
    /// which is always the answer when no names are at hand.
    fn debug_trait_id(id: ItemId, program: Option<&ProgramNames>) -> (r: Option<String>)
        ensures
            program is None ==> r is None,
            program matches Some(p) ==> text_of(r) == Self::rendered_id(id, p),
    ;

    /// Renders an associated type id; `None` asks for the default structural
    /// output, which is always the answer when no names are at hand.
    fn debug_assoc_type_id(id: ItemId, program: Option<&ProgramNames>) -> (r: Option<String>)
        ensures
            program is None ==> r is None,
            program matches Some(p) ==> text_of(r) == Self::rendered_id(id, p),
    ;

    /// The structural value that an interned type stands for.
    spec fn ty_view(&self, ty: &Self::InternedType) -> TyData;

    /// The structural value that an interned lifetime stands for.
    spec fn lifetime_view(&self, lifetime: &Self::InternedLifetime) -> LifetimeData;

    /// The structural value that an interned parameter stands for.
    spec fn parameter_view(&self, parameter: &Self::InternedParameter) -> ParameterData;

    /// The structural value that an interned goal stands for.
    spec fn goal_view(&self, goal: &Self::InternedGoal) -> GoalData;

    /// The goals that an interned list of goals stands for.
    spec fn goals_view(&self, goals: &Self::InternedGoals) -> Seq<Goal>;

    /// The parameters that an interned substitution stands for.
    spec fn substitution_view(&self, substitution: &Self::InternedSubstitution) -> Seq<Parameter>;

    /// The text that the printing hook gives for an alias with the names of
    /// `program` at hand.
    spec fn rendered_alias(value: &ProjectionTy, program: &ProgramNames) -> Option<Seq<char>>;

    /// Renders an alias; `None` asks for the default structural output, which is
    /// always the answer when no names are at hand.
    fn debug_alias(value: &ProjectionTy, program: Option<&ProgramNames>) -> (r: Option<String>)
        ensures
            program is None ==> r is None,
            program matches Some(p) ==> text_of(r) == Self::rendered_alias(value, p),
    ;

    /// The text that the printing hook gives for a type with the names of
    /// `program` at hand.
    spec fn rendered_ty(value: &Ty, program: &ProgramNames) -> Option<Seq<char>>;

    /// Renders a type; `None` asks for the default structural output, which is
    /// always the answer when no names are at hand.
    fn debug_ty(value: &Ty, program: Option<&ProgramNames>) -> (r: Option<String>)
        ensures
            program is None ==> r is None,
            program matches Some(p) ==> text_of(r) == Self::rendered_ty(value, p),
    ;

    /// The text that the printing hook gives for a lifetime with the names of
    /// `program` at hand.
    spec fn rendered_lifetime(value: &Lifetime, program: &ProgramNames) -> Option<Seq<char>>;

    /// Renders a lifetime; `None` asks for the default structural output, which is
    /// always the answer when no names are at hand.
    fn debug_lifetime(value: &Lifetime, program: Option<&ProgramNames>) -> (r: Option<String>)
        ensures
            program is None ==> r is None,
            program matches Some(p) ==> text_of(r) == Self::rendered_lifetime(value, p),
    ;

    /// The text that the printing hook gives for a parameter with the names of
    /// `program` at hand.
    spec fn rendered_parameter(value: &Parameter, program: &ProgramNames) -> Option<Seq<char>>;

    /// Renders a parameter; `None` asks for the default structural output, which is
    /// always the answer when no names are at hand.
    fn debug_parameter(value: &Parameter, program: Option<&ProgramNames>) -> (r: Option<String>)
        ensures
            program is None ==> r is None,
            program matches Some(p) ==> text_of(r) == Self::rendered_parameter(value, p),
    ;

    /// The text that the printing hook gives for a goal with the names of
    /// `program` at hand.
    spec fn rendered_goal(value: &Goal, program: &ProgramNames) -> Option<Seq<char>>;

    /// Renders a goal; `None` asks for the default structural output, which is
    /// always the answer when no names are at hand.
    fn debug_goal(value: &Goal, program: Option<&ProgramNames>) -> (r: Option<String>)
        ensures
            program is None ==> r is None,
            program matches Some(p) ==> text_of(r) == Self::rendered_goal(value, p),
    ;

    /// The text that the printing hook gives for a list of goals with the names of
    /// `program` at hand.
    spec fn rendered_goals(value: &Goals, program: &ProgramNames) -> Option<Seq<char>>;

    /// Renders a list of goals; `None` asks for the default structural output, which is
    /// always the answer when no names are at hand.
    fn debug_goals(value: &Goals, program: Option<&ProgramNames>) -> (r: Option<String>)
        ensures
            program is None ==> r is None,
            program matches Some(p) ==> text_of(r) == Self::rendered_goals(value, p),
    ;

    /// The text that the printing hook gives for a program clause with the names of
    /// `program` at hand.
    spec fn rendered_program_clause_implication(
        value: &ProgramClause,
        program: &ProgramNames,
    ) -> Option<Seq<char>>;

    /// Renders a program clause; `None` asks for the default structural output, which is
    /// always the answer when no names are at hand.
    fn debug_program_clause_implication(
        value: &ProgramClause,
        program: Option<&ProgramNames>,
    ) -> (r: Option<String>)
        ensures
            program is None ==> r is None,
            program matches Some(p) ==>
                text_of(r) == Self::rendered_program_clause_implication(value, p),
    ;

    /// The text that the printing hook gives for an application type with the names of
    /// `program` at hand.
    spec fn rendered_application_ty(
        value: &ApplicationTy,
        program: &ProgramNames,
    ) -> Option<Seq<char>>;

    /// Renders an application type; `None` asks for the default structural output, which is
    /// always the answer when no names are at hand.
    fn debug_application_ty(
        value: &ApplicationTy,
        program: Option<&ProgramNames>,
    ) -> (r: Option<String>)
        ensures
            program is None ==> r is None,
            program matches Some(p) ==> text_of(r) == Self::rendered_application_ty(value, p),
    ;

    /// The text that the printing hook gives for a substitution with the names of
    /// `program` at hand.
    spec fn rendered_substitution(
        value: &Substitution,
        program: &ProgramNames,
    ) -> Option<Seq<char>>;

    /// Renders a substitution; `None` asks for the default structural output, which is
    /// always the answer when no names are at hand.
    fn debug_substitution(
        value: &Substitution,
        program: Option<&ProgramNames>,
    ) -> (r: Option<String>)
        ensures
            program is None ==> r is None,
            program matches Some(p) ==> text_of(r) == Self::rendered_substitution(value, p),
    ;

    /// The text that the printing hook gives for a trait reference written with its separator with
    /// the names of
    /// `program` at hand.
    spec fn rendered_separator_trait_ref(
        value: &TraitRef,
        program: &ProgramNames,
    ) -> Option<Seq<char>>;

    /// Renders a trait reference written with its separator; `None` asks for the default structural
    /// output, which is
    /// always the answer when no names are at hand.
    fn debug_separator_trait_ref(
        value: &TraitRef,
        program: Option<&ProgramNames>,
    ) -> (r: Option<String>)
        ensures
            program is None ==> r is None,
            program matches Some(p) ==> text_of(r) == Self::rendered_separator_trait_ref(value, p),
    ;

    /// Equal types have equal interned forms.
    proof fn lemma_ty_view_injective(&self, a: &Self::InternedType, b: &Self::InternedType)
        requires
            self.ty_view(a) == self.ty_view(b),
        ensures
            a == b,
    ;

    /// Equal lifetimes have equal interned forms.
    proof fn lemma_lifetime_view_injective(
        &self,
        a: &Self::InternedLifetime,
        b: &Self::InternedLifetime,
    )
        requires
            self.lifetime_view(a) == self.lifetime_view(b),
        ensures
            a == b,
    ;

    /// Equal parameters have equal interned forms.
    proof fn lemma_parameter_view_injective(
        &self,
        a: &Self::InternedParameter,
        b: &Self::InternedParameter,
    )
        requires
            self.parameter_view(a) == self.parameter_view(b),
        ensures
            a == b,
    ;

    /// Equal goals have equal interned forms.
    proof fn lemma_goal_view_injective(&self, a: &Self::InternedGoal, b: &Self::InternedGoal)
        requires
            self.goal_view(a) == self.goal_view(b),
        ensures
            a == b,
    ;

    fn intern_ty(&self, ty: TyData) -> (r: Self::InternedType)
        ensures
            self.ty_view(&r) == ty,
    ;

    fn ty_data<'a>(&self, ty: &'a Self::InternedType) -> (r: &'a TyData)
        ensures
            *r == self.ty_view(ty),
    ;

    fn intern_lifetime(&self, lifetime: LifetimeData) -> (r: Self::InternedLifetime)
        ensures
            self.lifetime_view(&r) == lifetime,
    ;

    fn lifetime_data<'a>(&self, lifetime: &'a Self::InternedLifetime) -> (r: &'a LifetimeData)
        ensures
            *r == self.lifetime_view(lifetime),
    ;

    fn intern_parameter(&self, data: ParameterData) -> (r: Self::InternedParameter)
        ensures
            self.parameter_view(&r) == data,
    ;

    fn parameter_data<'a>(&self, parameter: &'a Self::InternedParameter) -> (r: &'a ParameterData)
        ensures
            *r == self.parameter_view(parameter),
    ;

    fn intern_goal(&self, data: GoalData) -> (r: Self::InternedGoal)
        ensures
            self.goal_view(&r) == data,
    ;

    fn goal_data<'a>(&self, goal: &'a Self::InternedGoal) -> (r: &'a GoalData)
        ensures
            *r == self.goal_view(goal),
    ;

    fn intern_goals(&self, data: Vec<Goal>) -> (r: Self::InternedGoals)
        ensures
            self.goals_view(&r) == data@,
    ;

    fn goals_data<'a>(&self, goals: &'a Self::InternedGoals) -> (r: &'a [Goal])
        ensures
            r@ == self.goals_view(goals),
    ;

    /// Interns the parameters of `data` in order; the first `Err` among them
    /// is handed back instead, and nothing is interned.
    fn intern_substitution<E>(&self, data: Vec<Result<Parameter, E>>) -> (r: Result<
        Self::InternedSubstitution,
        E,
    >)
        ensures
            (forall|i: int| 0 <= i < data.len() ==> data@[i] is Ok) ==> r is Ok
                && self.substitution_view(&r->Ok_0) == ok_parameters(data@),
            forall|i: int|
                is_first_error(data@, i) ==> r == Err::<Self::InternedSubstitution, E>(
                    data@[i]->Err_0,
                ),
    ;

    fn substitution_data<'a>(&self, substitution: &'a Self::InternedSubstitution) -> (r:
        &'a [Parameter])
        ensures
            r@ == self.substitution_view(substitution),
    ;
}

/// An interner into which the definition ids of the interner `I` can be
/// carried.
pub trait TargetInterner<I: Interner>: Interner {
    /// The id that `def_id` becomes in this interner.
    spec fn transferred(def_id: I::DefId) -> Self::DefId;

    fn transfer_def_id(def_id: I::DefId) -> (r: Self::DefId)
        ensures
            r == Self::transferred(def_id),
    ;
}

impl<I: Interner> TargetInterner<I> for I {
    /// An id carried into its own interner stays what it is.
    open spec fn transferred(def_id: I::DefId) -> I::DefId {
        def_id
    }

    fn transfer_def_id(def_id: I::DefId) -> (r: I::DefId) {
        def_id
    }
}

/// A type whose values are parameterized by an interner.
pub trait HasInterner {
    type Interner: Interner;
}

/// The interner of the IR of this library: values are stored as they are,
/// types and goals behind a shared pointer. It renders definition ids by
/// their names; for every other value it asks for the default structural
/// output.
#[derive(Clone, Copy, Debug, PartialEq, Eq, Structural, PartialOrd, Ord, Hash)]
pub struct ChalkIr;

impl Interner for ChalkIr {
    type InternedType = Arc<TyData>;

    type InternedLifetime = LifetimeData;

    type InternedParameter = ParameterData;

    type InternedGoal = Arc<GoalData>;

    type InternedGoals = Vec<Goal>;

    type InternedSubstitution = Vec<Parameter>;

    type DefId = ItemId;

    type Identifier = Identifier;

    open spec fn rendered_id(id: ItemId, program: &ProgramNames) -> Option<Seq<char>> {
        program.name_of(id)
    }

    fn debug_struct_id(id: ItemId, program: Option<&ProgramNames>) -> (r: Option<String>) {
        match program {
            Some(p) => p.lookup(id),
            None => None,
        }
    }

    fn debug_trait_id(id: ItemId, program: Option<&ProgramNames>) -> (r: Option<String>) {
        match program {
            Some(p) => p.lookup(id),
            None => None,
        }
    }

    fn debug_assoc_type_id(id: ItemId, program: Option<&ProgramNames>) -> (r: Option<String>) {
        match program {
            Some(p) => p.lookup(id),
            None => None,
        }
    }

    open spec fn ty_view(&self, ty: &Arc<TyData>) -> TyData {
        **ty
    }

    open spec fn lifetime_view(&self, lifetime: &LifetimeData) -> LifetimeData {
        *lifetime
    }

    open spec fn parameter_view(&self, parameter: &ParameterData) -> ParameterData {
        *parameter
    }

    open spec fn goal_view(&self, goal: &Arc<GoalData>) -> GoalData {
        **goal
    }

    open spec fn goals_view(&self, goals: &Vec<Goal>) -> Seq<Goal> {
        goals@
    }

    open spec fn substitution_view(&self, substitution: &Vec<Parameter>) -> Seq<Parameter> {
        substitution@
    }

    open spec fn rendered_alias(value: &ProjectionTy, program: &ProgramNames) -> Option<Seq<char>> {
        None
    }

    fn debug_alias(value: &ProjectionTy, program: Option<&ProgramNames>) -> (r: Option<String>) {
        None
    }

    open spec fn rendered_ty(value: &Ty, program: &ProgramNames) -> Option<Seq<char>> {
        None
    }

    fn debug_ty(value: &Ty, program: Option<&ProgramNames>) -> (r: Option<String>) {
        None
    }

    open spec fn rendered_lifetime(value: &Lifetime, program: &ProgramNames) -> Option<Seq<char>> {
        None
    }

    fn debug_lifetime(value: &Lifetime, program: Option<&ProgramNames>) -> (r: Option<String>) {
        None
    }

    open spec fn rendered_parameter(
        value: &Parameter,
        program: &ProgramNames,
    ) -> Option<Seq<char>> {
        None
    }

    fn debug_parameter(value: &Parameter, program: Option<&ProgramNames>) -> (r: Option<String>) {
        None
    }

    open spec fn rendered_goal(value: &Goal, program: &ProgramNames) -> Option<Seq<char>> {
        None
    }

    fn debug_goal(value: &Goal, program: Option<&ProgramNames>) -> (r: Option<String>) {
        None
    }

    open spec fn rendered_goals(value: &Goals, program: &ProgramNames) -> Option<Seq<char>> {
        None
    }

    fn debug_goals(value: &Goals, program: Option<&ProgramNames>) -> (r: Option<String>) {
        None
    }

    open spec fn rendered_program_clause_implication(
        value: &ProgramClause,
        program: &ProgramNames,
    ) -> Option<Seq<char>> {
        None
    }

    fn debug_program_clause_implication(
        value: &ProgramClause,
        program: Option<&ProgramNames>,
    ) -> (r: Option<String>) {
        None
    }

    open spec fn rendered_application_ty(
        value: &ApplicationTy,
        program: &ProgramNames,
    ) -> Option<Seq<char>> {
        None
    }

    fn debug_application_ty(
        value: &ApplicationTy,
        program: Option<&ProgramNames>,
    ) -> (r: Option<String>) {
        None
    }

    open spec fn rendered_substitution(
        value: &Substitution,
        program: &ProgramNames,
    ) -> Option<Seq<char>> {
        None
    }

    fn debug_substitution(
        value: &Substitution,
        program: Option<&ProgramNames>,
    ) -> (r: Option<String>) {
        None
    }

    open spec fn rendered_separator_trait_ref(
        value: &TraitRef,
        program: &ProgramNames,
    ) -> Option<Seq<char>> {
        None
    }

    fn debug_separator_trait_ref(
        value: &TraitRef,
        program: Option<&ProgramNames>,
    ) -> (r: Option<String>) {
        None
    }

    proof fn lemma_ty_view_injective(&self, a: &Arc<TyData>, b: &Arc<TyData>) {
    }

    proof fn lemma_lifetime_view_injective(&self, a: &LifetimeData, b: &LifetimeData) {
    }

    proof fn lemma_parameter_view_injective(&self, a: &ParameterData, b: &ParameterData) {
    }

    proof fn lemma_goal_view_injective(&self, a: &Arc<GoalData>, b: &Arc<GoalData>) {
    }

    fn intern_ty(&self, ty: TyData) -> (r: Arc<TyData>) {
        Arc::new(ty)
    }

    fn ty_data<'a>(&self, ty: &'a Arc<TyData>) -> (r: &'a TyData) {
        &**ty
    }

    fn intern_lifetime(&self, lifetime: LifetimeData) -> (r: LifetimeData) {
        lifetime
    }

    fn lifetime_data<'a>(&self, lifetime: &'a LifetimeData) -> (r: &'a LifetimeData) {
        lifetime
    }

    fn intern_parameter(&self, data: ParameterData) -> (r: ParameterData) {
        data
    }

    fn parameter_data<'a>(&self, parameter: &'a ParameterData) -> (r: &'a ParameterData) {
        parameter
    }

    fn intern_goal(&self, data: GoalData) -> (r: Arc<GoalData>) {
        Arc::new(data)
    }

    fn goal_data<'a>(&self, goal: &'a Arc<GoalData>) -> (r: &'a GoalData) {
        &**goal
    }

    fn intern_goals(&self, data: Vec<Goal>) -> (r: Vec<Goal>) {
        data
    }

    fn goals_data<'a>(&self, goals: &'a Vec<Goal>) -> (r: &'a [Goal]) {
        goals.as_slice()
    }

    fn intern_substitution<E>(&self, data: Vec<Result<Parameter, E>>) -> (r: Result<
        Vec<Parameter>,
        E,
    >) {
        collect_parameters(data)
    }

    fn substitution_data<'a>(&self, substitution: &'a Vec<Parameter>) -> (r: &'a [Parameter]) {
        substitution.as_slice()
    }
}

impl HasInterner for ChalkIr {
    type Interner = ChalkIr;
}

impl<T: HasInterner> HasInterner for [T] {
    type Interner = T::Interner;
}

impl<T: HasInterner> HasInterner for Vec<T> {
    type Interner = T::Interner;
}

impl<T: HasInterner> HasInterner for Box<T> {
    type Interner = T::Interner;
}

impl<T: HasInterner> HasInterner for Arc<T> {
    type Interner = T::Interner;
}

impl<'a, T: HasInterner + ?Sized> HasInterner for &'a T {
    type Interner = T::Interner;
}

impl<I: Interner> HasInterner for PhantomData<I> {
    type Interner = I;
}

/// A pair is parameterized by the interner that both of its halves share.
impl<A, B, I> HasInterner for (A, B) where
    A: HasInterner<Interner = I>,
    B: HasInterner<Interner = I>,
    I: Interner,
 {
    type Interner = I;
}

impl HasInterner for Ty {
    type Interner = ChalkIr;
}

impl HasInterner for Lifetime {
    type Interner = ChalkIr;
}

impl HasInterner for Parameter {
    type Interner = ChalkIr;
}

impl HasInterner for Goal {
    type Interner = ChalkIr;
}

impl HasInterner for Goals {
    type Interner = ChalkIr;
}

impl HasInterner for Substitution {
    type Interner = ChalkIr;
}

impl Ty {
    /// Interns `data` as a type.
    pub fn new(interner: &ChalkIr, data: TyData) -> (r: Ty)
        ensures
            *r.interned == data,
    {
        Ty { interned: interner.intern_ty(data) }
    }

    pub fn data<'a>(&'a self, interner: &ChalkIr) -> (r: &'a TyData)
        ensures
            *r == *self.interned,
    {
        interner.ty_data(&self.interned)
    }
}

impl Lifetime {
    /// Interns `data` as a lifetime.
    pub fn new(interner: &ChalkIr, data: LifetimeData) -> (r: Lifetime)
        ensures
            r.interned == data,
    {
        Lifetime { interned: interner.intern_lifetime(data) }
    }

    pub fn data<'a>(&'a self, interner: &ChalkIr) -> (r: &'a LifetimeData)
        ensures
            *r == self.interned,
    {
        interner.lifetime_data(&self.interned)
    }
}

impl Parameter {
    /// Interns `data` as a parameter.
    pub fn new(interner: &ChalkIr, data: ParameterData) -> (r: Parameter)
        ensures
            r.interned == data,
    {
        Parameter { interned: interner.intern_parameter(data) }
    }

    pub fn data<'a>(&'a self, interner: &ChalkIr) -> (r: &'a ParameterData)
        ensures
            *r == self.interned,
    {
        interner.parameter_data(&self.interned)
    }
}

impl Goal {
    /// Interns `data` as a goal.
    pub fn new(interner: &ChalkIr, data: GoalData) -> (r: Goal)
        ensures
            *r.interned == data,
    {
        Goal { interned: interner.intern_goal(data) }
    }

    pub fn data<'a>(&'a self, interner: &ChalkIr) -> (r: &'a GoalData)
        ensures
            *r == *self.interned,
    {
        interner.goal_data(&self.interned)
    }
}

impl Goals {
    /// Interns the goals of `goals`, in order.
    pub fn new(interner: &ChalkIr, goals: Vec<Goal>) -> (r: Goals)
        ensures
            r.interned@ == goals@,
    {
        Goals { interned: interner.intern_goals(goals) }
    }

    pub fn as_slice<'a>(&'a self, interner: &ChalkIr) -> (r: &'a [Goal])
        ensures
            r@ == self.interned@,
    {
        interner.goals_data(&self.interned)
    }
}

impl Substitution {
    /// Interns the parameters of `items`, in order, or gives back the first
    /// error among them.
    pub fn from_fallible<E>(interner: &ChalkIr, items: Vec<Result<Parameter, E>>) -> (r: Result<
        Substitution,
        E,
    >)
        ensures
            (forall|i: int| 0 <= i < items.len() ==> items@[i] is Ok) ==> r is Ok
                && r->Ok_0.interned@ == ok_parameters(items@),
            forall|i: int|
                is_first_error(items@, i) ==> r == Err::<Substitution, E>(items@[i]->Err_0),
    {
        match interner.intern_substitution(items) {
            Ok(interned) => Ok(Substitution { interned }),
            Err(e) => Err(e),
        }
    }

    pub fn as_slice<'a>(&'a self, interner: &ChalkIr) -> (r: &'a [Parameter])
        ensures
            r@ == self.interned@,
    {
        interner.substitution_data(&self.interned)
    }
}

} // verus!
