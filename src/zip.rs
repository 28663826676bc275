//! Lock-step structural matching of two IR values of the same type.
//!
//! `Zip::zip_with` walks both values at once. Sequences must agree in
//! length, tagged values in their tag and atomic tokens in their value; at
//! every type and lifetime leaf the walk hands the pair to a `Zipper`, whose
//! callbacks decide what matching a leaf means (binding a variable, comparing
//! up to renaming, recording a difference). The first mismatch ends the walk.
use vstd::prelude::*;
use vstd::pervasive::unreached;
use std::sync::Arc;
use crate::ir::{
    ApplicationTy, Environment, Identifier, InEnvironment, ItemId, Lifetime, LifetimeOutlives,
    Normalize, Parameter, ParameterKind, ProgramClause, ProjectionTy, TraitRef, Ty, TypeName,
    TypeOutlives, WhereClause, WhereClauseGoal,
};

verus! {

/// The variant that a tagged value carries, as reported by a shape mismatch.
#[derive(Clone, Copy, Debug, PartialEq, Eq, Structural)]
pub enum ShapeTag {
    Implemented,
    AliasEq,
    LifetimeOutlives,
    TypeOutlives,
    Normalize,
}

/// An atomic token, as reported by a token mismatch.
#[derive(Clone, Copy, Debug, PartialEq, Eq, Structural)]
pub enum Token {
    Item(ItemId),
    TypeName(TypeName),
    Identifier(Identifier),
}

/// Why two values could not be zipped.
#[derive(Clone, Copy, Debug, PartialEq, Eq, Structural)]
pub enum ZipError {
    /// Two sequences of different lengths (left length, right length).
    ArityMismatch(usize, usize),
    /// Two tagged values with different tags.
    ShapeMismatch(ShapeTag, ShapeTag),
    /// Two different atomic tokens.
    TokenMismatch(Token, Token),
    /// A leaf callback refused a pair of leaves.
    LeafMismatch,
}

/// One event of the walk over two values.
pub enum ZipStep {
    /// A pair of types handed to `Zipper::zip_tys`.
    Tys(Ty, Ty),
    /// A pair of lifetimes handed to `Zipper::zip_lifetimes`.
    Lifetimes(Lifetime, Lifetime),
    /// A mismatch that the walk finds itself; the walk ends there.
    Mismatch(ZipError),
}

/// The leaf callbacks of a zip.
pub trait Zipper {
    /// `zip_tys(a, b)`, called on this zipper, may leave it as `next` and
    /// return `r`.
    spec fn ty_step(&self, a: Ty, b: Ty, next: &Self, r: Result<(), ZipError>) -> bool;

    /// `zip_lifetimes(a, b)`, called on this zipper, may leave it as `next`
    /// and return `r`.
    spec fn lifetime_step(
        &self,
        a: Lifetime,
        b: Lifetime,
        next: &Self,
        r: Result<(), ZipError>,
    ) -> bool;

    fn zip_tys(&mut self, a: &Ty, b: &Ty) -> (r: Result<(), ZipError>)
        ensures
            (*old(self)).ty_step(*a, *b, &*final(self), r),
    ;

    fn zip_lifetimes(&mut self, a: &Lifetime, b: &Lifetime) -> (r: Result<(), ZipError>)
        ensures
            (*old(self)).lifetime_step(*a, *b, &*final(self), r),
    ;
}

/// Playing the events `steps` in order on the zipper `z` may leave it as
/// `next` and give `r`: each pair of leaves goes to its callback, the first
/// error (of a callback or of the walk) ends the play and is its result, and
/// a play that meets no error gives `Ok`.
pub open spec fn runs<Z: Zipper>(
    z: Z,
    steps: Seq<ZipStep>,
    next: Z,
    r: Result<(), ZipError>,
) -> bool
    decreases steps.len(),
{
    if steps.len() == 0 {
        next == z && r is Ok
    } else {
        match steps[0] {
            ZipStep::Tys(x, y) => exists|mid: Z, r1: Result<(), ZipError>|
                #[trigger] z.ty_step(x, y, &mid, r1) && if r1 is Err {
                    next == mid && r == r1
                } else {
                    runs(mid, steps.drop_first(), next, r)
                },
            ZipStep::Lifetimes(x, y) => exists|mid: Z, r1: Result<(), ZipError>|
                #[trigger] z.lifetime_step(x, y, &mid, r1) && if r1 is Err {
                    next == mid && r == r1
                } else {
                    runs(mid, steps.drop_first(), next, r)
                },
            ZipStep::Mismatch(e) => next == z && r == Err::<(), ZipError>(e),
        }
    }
}

/// `steps` holds a mismatch of the walk itself.
pub open spec fn has_mismatch(steps: Seq<ZipStep>) -> bool {
    exists|i: int| 0 <= i < steps.len() && #[trigger] steps[i] is Mismatch
}

/// Every event of `steps` hands a callback two equal leaves.
pub open spec fn pairs_equal_leaves(steps: Seq<ZipStep>) -> bool {
    forall|i: int|
        0 <= i < steps.len() ==> match #[trigger] steps[i] {
            ZipStep::Tys(x, y) => x == y,
            ZipStep::Lifetimes(x, y) => x == y,
            ZipStep::Mismatch(_) => false,
        }
}

/// The callbacks of every zipper of type `Z` accept every pair of equal
/// leaves.
pub open spec fn accepts_equal_leaves<Z: Zipper>() -> bool {
    &&& forall|z: Z, t: Ty, next: Z, r: Result<(), ZipError>|
        #[trigger] z.ty_step(t, t, &next, r) ==> r is Ok
    &&& forall|z: Z, l: Lifetime, next: Z, r: Result<(), ZipError>|
        #[trigger] z.lifetime_step(l, l, &next, r) ==> r is Ok
}

proof fn lemma_ok_unit(r: Result<(), ZipError>)
    requires
        r is Ok,
    ensures
        r == Ok::<(), ZipError>(()),
{
    match r {
        Ok(u) => {
            assert(u == ());
        },
        Err(_) => {},
    }
}

/// Zipping two types is one call of `zip_tys` on them.
pub proof fn lemma_runs_ty<Z: Zipper>(z: Z, a: Ty, b: Ty, next: Z, r: Result<(), ZipError>)
    ensures
        runs(z, seq![ZipStep::Tys(a, b)], next, r) <==> z.ty_step(a, b, &next, r),
{
    let s = seq![ZipStep::Tys(a, b)];
    let none = Seq::<ZipStep>::empty();
    assert(s.drop_first() =~= none);
    assert(s[0] == ZipStep::Tys(a, b));
    if r is Ok {
        assert(runs(next, none, next, r));
    }
    if z.ty_step(a, b, &next, r) {
        assert(runs(z, s, next, r));
    }
    if runs(z, s, next, r) {
        let (m, r1) = choose|m: Z, r1: Result<(), ZipError>|
            #[trigger] z.ty_step(a, b, &m, r1) && if r1 is Err {
                next == m && r == r1
            } else {
                runs(m, s.drop_first(), next, r)
            };
        if r1 is Ok {
            assert(runs(m, none, next, r));
            lemma_ok_unit(r1);
            lemma_ok_unit(r);
        }
    }
}

/// Zipping two lifetimes is one call of `zip_lifetimes` on them.
pub proof fn lemma_runs_lifetime<Z: Zipper>(
    z: Z,
    a: Lifetime,
    b: Lifetime,
    next: Z,
    r: Result<(), ZipError>,
)
    ensures
        runs(z, seq![ZipStep::Lifetimes(a, b)], next, r) <==> z.lifetime_step(a, b, &next, r),
{
    let s = seq![ZipStep::Lifetimes(a, b)];
    let none = Seq::<ZipStep>::empty();
    assert(s.drop_first() =~= none);
    assert(s[0] == ZipStep::Lifetimes(a, b));
    if r is Ok {
        assert(runs(next, none, next, r));
    }
    if z.lifetime_step(a, b, &next, r) {
        assert(runs(z, s, next, r));
    }
    if runs(z, s, next, r) {
        let (m, r1) = choose|m: Z, r1: Result<(), ZipError>|
            #[trigger] z.lifetime_step(a, b, &m, r1) && if r1 is Err {
                next == m && r == r1
            } else {
                runs(m, s.drop_first(), next, r)
            };
        if r1 is Ok {
            assert(runs(m, none, next, r));
            lemma_ok_unit(r1);
            lemma_ok_unit(r);
        }
    }
}

/// A mismatch of the walk ends it at once, with that error, and leaves the
/// zipper untouched.
pub proof fn lemma_runs_mismatch<Z: Zipper>(
    z: Z,
    e: ZipError,
    rest: Seq<ZipStep>,
    next: Z,
    r: Result<(), ZipError>,
)
    ensures
        runs(z, seq![ZipStep::Mismatch(e)] + rest, next, r) <==> (next == z && r == Err::<
            (),
            ZipError,
        >(e)),
{
    assert((seq![ZipStep::Mismatch(e)] + rest)[0] == ZipStep::Mismatch(e));
}

/// A play that succeeds met no mismatch of the walk.
pub proof fn lemma_runs_ok_no_mismatch<Z: Zipper>(
    z: Z,
    steps: Seq<ZipStep>,
    next: Z,
    r: Result<(), ZipError>,
)
    requires
        runs(z, steps, next, r),
        r is Ok,
    ensures
        !has_mismatch(steps),
    decreases steps.len(),
{
    if steps.len() > 0 {
        let rest = steps.drop_first();
        match steps[0] {
            ZipStep::Tys(x, y) => {
                let (mid, r1) = choose|mid: Z, r1: Result<(), ZipError>|
                    #[trigger] z.ty_step(x, y, &mid, r1) && if r1 is Err {
                        next == mid && r == r1
                    } else {
                        runs(mid, rest, next, r)
                    };
                lemma_runs_ok_no_mismatch(mid, rest, next, r);
            },
            ZipStep::Lifetimes(x, y) => {
                let (mid, r1) = choose|mid: Z, r1: Result<(), ZipError>|
                    #[trigger] z.lifetime_step(x, y, &mid, r1) && if r1 is Err {
                        next == mid && r == r1
                    } else {
                        runs(mid, rest, next, r)
                    };
                lemma_runs_ok_no_mismatch(mid, rest, next, r);
            },
            ZipStep::Mismatch(_) => {},
        }
        assert forall|i: int| 0 <= i < steps.len() implies !(#[trigger] steps[i] is Mismatch) by {
            if i > 0 {
                assert(steps[i] == rest[i - 1]);
            }
        }
    }
}

/// A walk splits over concatenation: playing `s1` then `s2` is playing
/// `s1 + s2`, when `s1` succeeds.
pub proof fn lemma_runs_append<Z: Zipper>(
    z: Z,
    s1: Seq<ZipStep>,
    mid: Z,
    r1: Result<(), ZipError>,
    s2: Seq<ZipStep>,
    next: Z,
    r: Result<(), ZipError>,
)
    requires
        runs(z, s1, mid, r1),
        r1 is Ok,
        runs(mid, s2, next, r),
    ensures
        runs(z, s1 + s2, next, r),
    decreases s1.len(),
{
    let s = s1 + s2;
    if s1.len() == 0 {
        assert(s =~= s2);
    } else {
        assert(s[0] == s1[0]);
        assert(s.drop_first() =~= s1.drop_first() + s2);
        match s1[0] {
            ZipStep::Tys(x, y) => {
                let (m, q) = choose|m: Z, q: Result<(), ZipError>|
                    #[trigger] z.ty_step(x, y, &m, q) && if q is Err {
                        mid == m && r1 == q
                    } else {
                        runs(m, s1.drop_first(), mid, r1)
                    };
                lemma_runs_append(m, s1.drop_first(), mid, r1, s2, next, r);
                assert(z.ty_step(x, y, &m, q));
            },
            ZipStep::Lifetimes(x, y) => {
                let (m, q) = choose|m: Z, q: Result<(), ZipError>|
                    #[trigger] z.lifetime_step(x, y, &m, q) && if q is Err {
                        mid == m && r1 == q
                    } else {
                        runs(m, s1.drop_first(), mid, r1)
                    };
                lemma_runs_append(m, s1.drop_first(), mid, r1, s2, next, r);
                assert(z.lifetime_step(x, y, &m, q));
            },
            ZipStep::Mismatch(_) => {},
        }
    }
}

/// A play that fails on `s1` fails the same way on `s1 + s2`: nothing after
/// the first error is played.
pub proof fn lemma_runs_stop<Z: Zipper>(
    z: Z,
    s1: Seq<ZipStep>,
    next: Z,
    r: Result<(), ZipError>,
    s2: Seq<ZipStep>,
)
    requires
        runs(z, s1, next, r),
        r is Err,
    ensures
        runs(z, s1 + s2, next, r),
    decreases s1.len(),
{
    let s = s1 + s2;
    if s1.len() > 0 {
        assert(s[0] == s1[0]);
        assert(s.drop_first() =~= s1.drop_first() + s2);
        match s1[0] {
            ZipStep::Tys(x, y) => {
                let (m, r1) = choose|m: Z, r1: Result<(), ZipError>|
                    #[trigger] z.ty_step(x, y, &m, r1) && if r1 is Err {
                        next == m && r == r1
                    } else {
                        runs(m, s1.drop_first(), next, r)
                    };
                if r1 is Ok {
                    lemma_runs_stop(m, s1.drop_first(), next, r, s2);
                }
                assert(z.ty_step(x, y, &m, r1));
            },
            ZipStep::Lifetimes(x, y) => {
                let (m, r1) = choose|m: Z, r1: Result<(), ZipError>|
                    #[trigger] z.lifetime_step(x, y, &m, r1) && if r1 is Err {
                        next == m && r == r1
                    } else {
                        runs(m, s1.drop_first(), next, r)
                    };
                if r1 is Ok {
                    lemma_runs_stop(m, s1.drop_first(), next, r, s2);
                }
                assert(z.lifetime_step(x, y, &m, r1));
            },
            ZipStep::Mismatch(_) => {},
        }
    }
}

proof fn lemma_pairs_equal_append(s1: Seq<ZipStep>, s2: Seq<ZipStep>)
    requires
        pairs_equal_leaves(s1),
        pairs_equal_leaves(s2),
    ensures
        pairs_equal_leaves(s1 + s2),
{
    assert forall|i: int| 0 <= i < (s1 + s2).len() implies match #[trigger] (s1 + s2)[i] {
        ZipStep::Tys(x, y) => x == y,
        ZipStep::Lifetimes(x, y) => x == y,
        ZipStep::Mismatch(_) => false,
    } by {
        if i >= s1.len() {
            assert((s1 + s2)[i] == s2[i - s1.len()]);
        } else {
            assert((s1 + s2)[i] == s1[i]);
        }
    }
}

/// With callbacks that accept equal leaves, a play of pairs of equal leaves
/// succeeds.
pub proof fn lemma_runs_equal_leaves<Z: Zipper>(
    z: Z,
    steps: Seq<ZipStep>,
    next: Z,
    r: Result<(), ZipError>,
)
    requires
        accepts_equal_leaves::<Z>(),
        pairs_equal_leaves(steps),
        runs(z, steps, next, r),
    ensures
        r is Ok,
    decreases steps.len(),
{
    if steps.len() > 0 {
        let rest = steps.drop_first();
        assert(pairs_equal_leaves(rest)) by {
            assert forall|i: int| 0 <= i < rest.len() implies match #[trigger] rest[i] {
                ZipStep::Tys(x, y) => x == y,
                ZipStep::Lifetimes(x, y) => x == y,
                ZipStep::Mismatch(_) => false,
            } by {
                assert(rest[i] == steps[i + 1]);
            }
        }
        let first = steps[0];
        assert(match first {
            ZipStep::Tys(x, y) => x == y,
            ZipStep::Lifetimes(x, y) => x == y,
            ZipStep::Mismatch(_) => false,
        });
        match first {
            ZipStep::Tys(x, y) => {
                let (m, r1) = choose|m: Z, r1: Result<(), ZipError>|
                    #[trigger] z.ty_step(x, y, &m, r1) && if r1 is Err {
                        next == m && r == r1
                    } else {
                        runs(m, rest, next, r)
                    };
                lemma_runs_equal_leaves(m, rest, next, r);
            },
            ZipStep::Lifetimes(x, y) => {
                let (m, r1) = choose|m: Z, r1: Result<(), ZipError>|
                    #[trigger] z.lifetime_step(x, y, &m, r1) && if r1 is Err {
                        next == m && r == r1
                    } else {
                        runs(m, rest, next, r)
                    };
                lemma_runs_equal_leaves(m, rest, next, r);
            },
            ZipStep::Mismatch(_) => {},
        }
    }
}

/// A value that can be walked in lock-step with another of its type.
pub trait Zip: Sized {
    /// What the caller must know of a pair before zipping it: the walk pairs
    /// no type with a lifetime, and zipped environments share their universe
    /// and their number of clauses.
    spec fn compatible(a: &Self, b: &Self) -> bool;

    /// The events of the walk over `a` and `b`, in order.
    spec fn steps(a: &Self, b: &Self) -> Seq<ZipStep>;

    /// A value is compatible with itself, and the walk over it and itself
    /// only pairs equal leaves.
    proof fn lemma_self_zip(a: &Self)
        ensures
            Self::compatible(a, a),
            pairs_equal_leaves(Self::steps(a, a)),
    ;

    /// Walks `a` and `b` together, handing each pair of leaves to `zipper`;
    /// the first mismatch ends the walk.
    fn zip_with<Z: Zipper>(zipper: &mut Z, a: &Self, b: &Self) -> (r: Result<(), ZipError>)
        requires
            Self::compatible(a, b),
        ensures
            runs(*old(zipper), Self::steps(a, b), *final(zipper), r),
    ;
}

/// Zipping a value against itself succeeds when the callbacks accept equal
/// leaves.
pub proof fn lemma_zip_reflexive<T: Zip, Z: Zipper>(
    v: &T,
    z: Z,
    next: Z,
    r: Result<(), ZipError>,
)
    requires
        accepts_equal_leaves::<Z>(),
        runs(z, T::steps(v, v), next, r),
    ensures
        T::compatible(v, v),
        r is Ok,
{
    T::lemma_self_zip(v);
    lemma_runs_equal_leaves(z, T::steps(v, v), next, r);
}

/// The events of the walk over the first `n` pairs of `a` and `b`.
pub open spec fn seq_steps<T: Zip>(a: Seq<T>, b: Seq<T>, n: int) -> Seq<ZipStep>
    decreases n,
{
    if n <= 0 {
        Seq::empty()
    } else {
        seq_steps(a, b, n - 1) + T::steps(&a[n - 1], &b[n - 1])
    }
}

proof fn lemma_seq_steps_prefix<T: Zip>(a: Seq<T>, b: Seq<T>, k: int, n: int) -> (rest: Seq<
    ZipStep,
>)
    requires
        0 <= k <= n,
    ensures
        seq_steps(a, b, n) == seq_steps(a, b, k) + rest,
    decreases n - k,
{
    if k == n {
        assert(seq_steps(a, b, n) =~= seq_steps(a, b, k) + Seq::<ZipStep>::empty());
        Seq::empty()
    } else {
        let r = lemma_seq_steps_prefix(a, b, k, n - 1);
        let t = T::steps(&a[n - 1], &b[n - 1]);
        assert((seq_steps(a, b, k) + r) + t =~= seq_steps(a, b, k) + (r + t));
        r + t
    }
}

proof fn lemma_seq_steps_self<T: Zip>(a: Seq<T>, n: int)
    requires
        n <= a.len(),
    ensures
        pairs_equal_leaves(seq_steps(a, a, n)),
        forall|i: int| 0 <= i < n ==> T::compatible(&a[i], &a[i]),
    decreases n,
{
    if n > 0 {
        lemma_seq_steps_self(a, n - 1);
        T::lemma_self_zip(&a[n - 1]);
        lemma_pairs_equal_append(seq_steps(a, a, n - 1), T::steps(&a[n - 1], &a[n - 1]));
    } else {
        assert(seq_steps(a, a, n) =~= Seq::<ZipStep>::empty());
    }
}

impl<T: Zip> Zip for Vec<T> {
    /// Elements are paired only when the lengths agree.
    open spec fn compatible(a: &Vec<T>, b: &Vec<T>) -> bool {
        a.len() == b.len() ==> forall|i: int|
            0 <= i < a.len() ==> T::compatible(&a@[i], &b@[i])
    }

    open spec fn steps(a: &Vec<T>, b: &Vec<T>) -> Seq<ZipStep> {
        if a.len() != b.len() {
            seq![ZipStep::Mismatch(ZipError::ArityMismatch(a.len(), b.len()))]
        } else {
            seq_steps(a@, b@, a.len() as int)
        }
    }

    proof fn lemma_self_zip(a: &Vec<T>) {
        lemma_seq_steps_self(a@, a.len() as int);
    }

    fn zip_with<Z: Zipper>(zipper: &mut Z, a: &Vec<T>, b: &Vec<T>) -> (r: Result<(), ZipError>) {
        if a.len() != b.len() {
            proof {
                lemma_runs_mismatch(
                    *zipper,
                    ZipError::ArityMismatch(a.len(), b.len()),
                    Seq::empty(),
                    *zipper,
                    Err(ZipError::ArityMismatch(a.len(), b.len())),
                );
                assert(seq![ZipStep::Mismatch(ZipError::ArityMismatch(a.len(), b.len()))]
                    + Seq::<ZipStep>::empty() =~= Self::steps(a, b));
            }
            return Err(ZipError::ArityMismatch(a.len(), b.len()));
        }
        let ghost z0 = *zipper;
        let mut i: usize = 0;
        while i < a.len()
            invariant
                a.len() == b.len(),
                i <= a.len(),
                Self::compatible(a, b),
                z0 == *old(zipper),
                runs(z0, seq_steps(a@, b@, i as int), *zipper, Ok(())),
            decreases a.len() - i,
        {
            let ghost cur = *zipper;
            let ri = T::zip_with(zipper, &a[i], &b[i]);
            proof {
                let pre = seq_steps(a@, b@, i as int);
                let here = T::steps(&a@[i as int], &b@[i as int]);
                assert(seq_steps(a@, b@, i + 1) == pre + here);
                if ri is Ok {
                    lemma_runs_append(z0, pre, cur, Ok(()), here, *zipper, ri);
                    lemma_ok_unit(ri);
                } else {
                    lemma_runs_stop(cur, here, *zipper, ri, Seq::empty());
                    assert(here + Seq::<ZipStep>::empty() =~= here);
                    lemma_runs_append(z0, pre, cur, Ok(()), here, *zipper, ri);
                    let rest = lemma_seq_steps_prefix(a@, b@, i + 1, a.len() as int);
                    lemma_runs_stop(z0, pre + here, *zipper, ri, rest);
                }
            }
            match ri {
                Ok(()) => {},
                Err(e) => {
                    return Err(e);
                },
            }
            i = i + 1;
        }
        Ok(())
    }
}

impl<T: Zip> Zip for Arc<T> {
    open spec fn compatible(a: &Arc<T>, b: &Arc<T>) -> bool {
        T::compatible(&**a, &**b)
    }

    open spec fn steps(a: &Arc<T>, b: &Arc<T>) -> Seq<ZipStep> {
        T::steps(&**a, &**b)
    }

    proof fn lemma_self_zip(a: &Arc<T>) {
        T::lemma_self_zip(&**a);
    }

    fn zip_with<Z: Zipper>(zipper: &mut Z, a: &Arc<T>, b: &Arc<T>) -> (r: Result<(), ZipError>) {
        T::zip_with(zipper, &**a, &**b)
    }
}

impl<'a, T: Zip> Zip for &'a T {
    open spec fn compatible(a: &&'a T, b: &&'a T) -> bool {
        T::compatible(*a, *b)
    }

    open spec fn steps(a: &&'a T, b: &&'a T) -> Seq<ZipStep> {
        T::steps(*a, *b)
    }

    proof fn lemma_self_zip(a: &&'a T) {
        T::lemma_self_zip(*a);
    }

    fn zip_with<Z: Zipper>(zipper: &mut Z, a: &&'a T, b: &&'a T) -> (r: Result<(), ZipError>) {
        T::zip_with(zipper, *a, *b)
    }
}

impl<T: Zip, U: Zip> Zip for (T, U) {
    open spec fn compatible(a: &(T, U), b: &(T, U)) -> bool {
        &&& T::compatible(&a.0, &b.0)
        &&& !has_mismatch(T::steps(&a.0, &b.0)) ==> U::compatible(&a.1, &b.1)
    }

    open spec fn steps(a: &(T, U), b: &(T, U)) -> Seq<ZipStep> {
        T::steps(&a.0, &b.0) + U::steps(&a.1, &b.1)
    }

    proof fn lemma_self_zip(a: &(T, U)) {
        T::lemma_self_zip(&a.0);
        U::lemma_self_zip(&a.1);
        lemma_pairs_equal_append(T::steps(&a.0, &a.0), U::steps(&a.1, &a.1));
    }

    fn zip_with<Z: Zipper>(zipper: &mut Z, a: &(T, U), b: &(T, U)) -> (r: Result<(), ZipError>) {
        let ghost z0 = *zipper;
        let r1 = T::zip_with(zipper, &a.0, &b.0);
        match r1 {
            Ok(()) => {},
            Err(e) => {
                proof {
                    lemma_runs_stop(
                        z0,
                        T::steps(&a.0, &b.0),
                        *zipper,
                        r1,
                        U::steps(&a.1, &b.1),
                    );
                }
                return Err(e);
            },
        }
        let ghost z1 = *zipper;
        proof {
            lemma_runs_ok_no_mismatch(z0, T::steps(&a.0, &b.0), z1, r1);
        }
        let r2 = U::zip_with(zipper, &a.1, &b.1);
        proof {
            lemma_runs_append(
                z0,
                T::steps(&a.0, &b.0),
                z1,
                r1,
                U::steps(&a.1, &b.1),
                *zipper,
                r2,
            );
        }
        r2
    }
}

impl<T: Zip, L: Zip> Zip for ParameterKind<T, L> {
    /// A type is never paired with a lifetime.
    open spec fn compatible(a: &ParameterKind<T, L>, b: &ParameterKind<T, L>) -> bool {
        match (a, b) {
            (ParameterKind::Ty(x), ParameterKind::Ty(y)) => T::compatible(x, y),
            (ParameterKind::Lifetime(x), ParameterKind::Lifetime(y)) => L::compatible(x, y),
            _ => false,
        }
    }

    open spec fn steps(a: &ParameterKind<T, L>, b: &ParameterKind<T, L>) -> Seq<ZipStep> {
        match (a, b) {
            (ParameterKind::Ty(x), ParameterKind::Ty(y)) => T::steps(x, y),
            (ParameterKind::Lifetime(x), ParameterKind::Lifetime(y)) => L::steps(x, y),
            _ => Seq::empty(),
        }
    }

    proof fn lemma_self_zip(a: &ParameterKind<T, L>) {
        match a {
            ParameterKind::Ty(x) => T::lemma_self_zip(x),
            ParameterKind::Lifetime(x) => L::lemma_self_zip(x),
        }
    }

    fn zip_with<Z: Zipper>(
        zipper: &mut Z,
        a: &ParameterKind<T, L>,
        b: &ParameterKind<T, L>,
    ) -> (r: Result<(), ZipError>) {
        match (a, b) {
            (ParameterKind::Ty(x), ParameterKind::Ty(y)) => T::zip_with(zipper, x, y),
            (ParameterKind::Lifetime(x), ParameterKind::Lifetime(y)) => L::zip_with(zipper, x, y),
            // Zipping a type against a lifetime is a bug of the caller, not
            // a failure to match: it halts.
            (ParameterKind::Ty(_), ParameterKind::Lifetime(_)) => unreached(),
            (ParameterKind::Lifetime(_), ParameterKind::Ty(_)) => unreached(),
        }
    }
}

impl Zip for Parameter {
    open spec fn compatible(a: &Parameter, b: &Parameter) -> bool {
        ParameterKind::<Ty, Lifetime>::compatible(&a.interned, &b.interned)
    }

    open spec fn steps(a: &Parameter, b: &Parameter) -> Seq<ZipStep> {
        ParameterKind::<Ty, Lifetime>::steps(&a.interned, &b.interned)
    }

    proof fn lemma_self_zip(a: &Parameter) {
        ParameterKind::<Ty, Lifetime>::lemma_self_zip(&a.interned);
    }

    fn zip_with<Z: Zipper>(
        zipper: &mut Z,
        a: &Parameter,
        b: &Parameter,
    ) -> (r: Result<(), ZipError>) {
        ParameterKind::<Ty, Lifetime>::zip_with(zipper, &a.interned, &b.interned)
    }
}

impl Zip for Ty {
    open spec fn compatible(a: &Ty, b: &Ty) -> bool {
        true
    }

    /// One pair of leaves, handed to `zip_tys`.
    open spec fn steps(a: &Ty, b: &Ty) -> Seq<ZipStep> {
        seq![ZipStep::Tys(*a, *b)]
    }

    proof fn lemma_self_zip(a: &Ty) {
        let s = Self::steps(a, a);
        assert(s[0] == ZipStep::Tys(*a, *a));
    }

    fn zip_with<Z: Zipper>(zipper: &mut Z, a: &Ty, b: &Ty) -> (r: Result<(), ZipError>) {
        let ghost z0 = *zipper;
        let r = zipper.zip_tys(a, b);
        proof {
            lemma_runs_ty(z0, *a, *b, *zipper, r);
        }
        r
    }
}

impl Zip for Lifetime {
    open spec fn compatible(a: &Lifetime, b: &Lifetime) -> bool {
        true
    }

    /// One pair of leaves, handed to `zip_lifetimes`.
    open spec fn steps(a: &Lifetime, b: &Lifetime) -> Seq<ZipStep> {
        seq![ZipStep::Lifetimes(*a, *b)]
    }

    proof fn lemma_self_zip(a: &Lifetime) {
        let s = Self::steps(a, a);
        assert(s[0] == ZipStep::Lifetimes(*a, *a));
    }

    fn zip_with<Z: Zipper>(
        zipper: &mut Z,
        a: &Lifetime,
        b: &Lifetime,
    ) -> (r: Result<(), ZipError>) {
        let ghost z0 = *zipper;
        let r = zipper.zip_lifetimes(a, b);
        proof {
            lemma_runs_lifetime(z0, *a, *b, *zipper, r);
        }
        r
    }
}

impl Zip for ItemId {
    open spec fn compatible(a: &ItemId, b: &ItemId) -> bool {
        true
    }

    /// Equal tokens make no event; unequal ones a token mismatch.
    open spec fn steps(a: &ItemId, b: &ItemId) -> Seq<ZipStep> {
        if a == b {
            Seq::empty()
        } else {
            seq![ZipStep::Mismatch(ZipError::TokenMismatch(Token::Item(*a), Token::Item(*b)))]
        }
    }

    proof fn lemma_self_zip(a: &ItemId) {
    }

    fn zip_with<Z: Zipper>(zipper: &mut Z, a: &ItemId, b: &ItemId) -> (r: Result<(), ZipError>) {
        if *a == *b {
            Ok(())
        } else {
            let e = ZipError::TokenMismatch(Token::Item(*a), Token::Item(*b));
            proof {
                lemma_runs_mismatch(*zipper, e, Seq::empty(), *zipper, Err(e));
                assert(seq![ZipStep::Mismatch(e)] + Seq::<ZipStep>::empty() =~= Self::steps(a, b));
            }
            Err(e)
        }
    }
}

impl Zip for TypeName {
    open spec fn compatible(a: &TypeName, b: &TypeName) -> bool {
        true
    }

    /// Equal tokens make no event; unequal ones a token mismatch.
    open spec fn steps(a: &TypeName, b: &TypeName) -> Seq<ZipStep> {
        if a == b {
            Seq::empty()
        } else {
            seq![
                ZipStep::Mismatch(
                    ZipError::TokenMismatch(Token::TypeName(*a), Token::TypeName(*b)),
                ),
            ]
        }
    }

    proof fn lemma_self_zip(a: &TypeName) {
    }

    fn zip_with<Z: Zipper>(
        zipper: &mut Z,
        a: &TypeName,
        b: &TypeName,
    ) -> (r: Result<(), ZipError>) {
        if *a == *b {
            Ok(())
        } else {
            let e = ZipError::TokenMismatch(Token::TypeName(*a), Token::TypeName(*b));
            proof {
                lemma_runs_mismatch(*zipper, e, Seq::empty(), *zipper, Err(e));
                assert(seq![ZipStep::Mismatch(e)] + Seq::<ZipStep>::empty() =~= Self::steps(a, b));
            }
            Err(e)
        }
    }
}

impl Zip for Identifier {
    open spec fn compatible(a: &Identifier, b: &Identifier) -> bool {
        true
    }

    /// Equal tokens make no event; unequal ones a token mismatch.
    open spec fn steps(a: &Identifier, b: &Identifier) -> Seq<ZipStep> {
        if a == b {
            Seq::empty()
        } else {
            seq![
                ZipStep::Mismatch(
                    ZipError::TokenMismatch(Token::Identifier(*a), Token::Identifier(*b)),
                ),
            ]
        }
    }

    proof fn lemma_self_zip(a: &Identifier) {
    }

    fn zip_with<Z: Zipper>(
        zipper: &mut Z,
        a: &Identifier,
        b: &Identifier,
    ) -> (r: Result<(), ZipError>) {
        if *a == *b {
            Ok(())
        } else {
            let e = ZipError::TokenMismatch(Token::Identifier(*a), Token::Identifier(*b));
            proof {
                lemma_runs_mismatch(*zipper, e, Seq::empty(), *zipper, Err(e));
                assert(seq![ZipStep::Mismatch(e)] + Seq::<ZipStep>::empty() =~= Self::steps(a, b));
            }
            Err(e)
        }
    }
}

impl Zip for TraitRef {
    open spec fn compatible(a: &TraitRef, b: &TraitRef) -> bool {
        &&& ItemId::compatible(&a.trait_id, &b.trait_id)
        &&& !has_mismatch(ItemId::steps(&a.trait_id, &b.trait_id)) ==>
            Vec::<Parameter>::compatible(&a.parameters, &b.parameters)
    }

    open spec fn steps(a: &TraitRef, b: &TraitRef) -> Seq<ZipStep> {
        ItemId::steps(&a.trait_id, &b.trait_id)
            + Vec::<Parameter>::steps(&a.parameters, &b.parameters)
    }

    proof fn lemma_self_zip(a: &TraitRef) {
        ItemId::lemma_self_zip(&a.trait_id);
        Vec::<Parameter>::lemma_self_zip(&a.parameters);
        lemma_pairs_equal_append(
            ItemId::steps(&a.trait_id, &a.trait_id),
            Vec::<Parameter>::steps(&a.parameters, &a.parameters),
        );
    }

    fn zip_with<Z: Zipper>(
        zipper: &mut Z,
        a: &TraitRef,
        b: &TraitRef,
    ) -> (r: Result<(), ZipError>) {
        let ghost z0 = *zipper;
        let r1 = ItemId::zip_with(zipper, &a.trait_id, &b.trait_id);
        match r1 {
            Ok(()) => {},
            Err(e) => {
                proof {
                    lemma_runs_stop(
                        z0,
                        ItemId::steps(&a.trait_id, &b.trait_id),
                        *zipper,
                        r1,
                        Vec::<Parameter>::steps(&a.parameters, &b.parameters),
                    );
                }
                return Err(e);
            },
        }
        let ghost z1 = *zipper;
        proof {
            lemma_runs_ok_no_mismatch(z0, ItemId::steps(&a.trait_id, &b.trait_id), z1, r1);
        }
        let r2 = Vec::<Parameter>::zip_with(zipper, &a.parameters, &b.parameters);
        proof {
            lemma_runs_append(
                z0,
                ItemId::steps(&a.trait_id, &b.trait_id),
                z1,
                r1,
                Vec::<Parameter>::steps(&a.parameters, &b.parameters),
                *zipper,
                r2,
            );
        }
        r2
    }
}

impl Zip for ApplicationTy {
    open spec fn compatible(a: &ApplicationTy, b: &ApplicationTy) -> bool {
        &&& TypeName::compatible(&a.name, &b.name)
        &&& !has_mismatch(TypeName::steps(&a.name, &b.name)) ==>
            Vec::<Parameter>::compatible(&a.parameters, &b.parameters)
    }

    open spec fn steps(a: &ApplicationTy, b: &ApplicationTy) -> Seq<ZipStep> {
        TypeName::steps(&a.name, &b.name) + Vec::<Parameter>::steps(&a.parameters, &b.parameters)
    }

    proof fn lemma_self_zip(a: &ApplicationTy) {
        TypeName::lemma_self_zip(&a.name);
        Vec::<Parameter>::lemma_self_zip(&a.parameters);
        lemma_pairs_equal_append(
            TypeName::steps(&a.name, &a.name),
            Vec::<Parameter>::steps(&a.parameters, &a.parameters),
        );
    }

    fn zip_with<Z: Zipper>(
        zipper: &mut Z,
        a: &ApplicationTy,
        b: &ApplicationTy,
    ) -> (r: Result<(), ZipError>) {
        let ghost z0 = *zipper;
        let r1 = TypeName::zip_with(zipper, &a.name, &b.name);
        match r1 {
            Ok(()) => {},
            Err(e) => {
                proof {
                    lemma_runs_stop(
                        z0,
                        TypeName::steps(&a.name, &b.name),
                        *zipper,
                        r1,
                        Vec::<Parameter>::steps(&a.parameters, &b.parameters),
                    );
                }
                return Err(e);
            },
        }
        let ghost z1 = *zipper;
        proof {
            lemma_runs_ok_no_mismatch(z0, TypeName::steps(&a.name, &b.name), z1, r1);
        }
        let r2 = Vec::<Parameter>::zip_with(zipper, &a.parameters, &b.parameters);
        proof {
            lemma_runs_append(
                z0,
                TypeName::steps(&a.name, &b.name),
                z1,
                r1,
                Vec::<Parameter>::steps(&a.parameters, &b.parameters),
                *zipper,
                r2,
            );
        }
        r2
    }
}

impl Zip for ProjectionTy {
    open spec fn compatible(a: &ProjectionTy, b: &ProjectionTy) -> bool {
        &&& TraitRef::compatible(&a.trait_ref, &b.trait_ref)
        &&& !has_mismatch(TraitRef::steps(&a.trait_ref, &b.trait_ref)) ==>
            Identifier::compatible(&a.name, &b.name)
    }

    open spec fn steps(a: &ProjectionTy, b: &ProjectionTy) -> Seq<ZipStep> {
        TraitRef::steps(&a.trait_ref, &b.trait_ref) + Identifier::steps(&a.name, &b.name)
    }

    proof fn lemma_self_zip(a: &ProjectionTy) {
        TraitRef::lemma_self_zip(&a.trait_ref);
        Identifier::lemma_self_zip(&a.name);
        lemma_pairs_equal_append(
            TraitRef::steps(&a.trait_ref, &a.trait_ref),
            Identifier::steps(&a.name, &a.name),
        );
    }

    fn zip_with<Z: Zipper>(
        zipper: &mut Z,
        a: &ProjectionTy,
        b: &ProjectionTy,
    ) -> (r: Result<(), ZipError>) {
        let ghost z0 = *zipper;
        let r1 = TraitRef::zip_with(zipper, &a.trait_ref, &b.trait_ref);
        match r1 {
            Ok(()) => {},
            Err(e) => {
                proof {
                    lemma_runs_stop(
                        z0,
                        TraitRef::steps(&a.trait_ref, &b.trait_ref),
                        *zipper,
                        r1,
                        Identifier::steps(&a.name, &b.name),
                    );
                }
                return Err(e);
            },
        }
        let ghost z1 = *zipper;
        proof {
            lemma_runs_ok_no_mismatch(z0, TraitRef::steps(&a.trait_ref, &b.trait_ref), z1, r1);
        }
        let r2 = Identifier::zip_with(zipper, &a.name, &b.name);
        proof {
            lemma_runs_append(
                z0,
                TraitRef::steps(&a.trait_ref, &b.trait_ref),
                z1,
                r1,
                Identifier::steps(&a.name, &b.name),
                *zipper,
                r2,
            );
        }
        r2
    }
}

impl Zip for Normalize {
    open spec fn compatible(a: &Normalize, b: &Normalize) -> bool {
        &&& ProjectionTy::compatible(&a.projection, &b.projection)
        &&& !has_mismatch(ProjectionTy::steps(&a.projection, &b.projection)) ==>
            Ty::compatible(&a.ty, &b.ty)
    }

    open spec fn steps(a: &Normalize, b: &Normalize) -> Seq<ZipStep> {
        ProjectionTy::steps(&a.projection, &b.projection) + Ty::steps(&a.ty, &b.ty)
    }

    proof fn lemma_self_zip(a: &Normalize) {
        ProjectionTy::lemma_self_zip(&a.projection);
        Ty::lemma_self_zip(&a.ty);
        lemma_pairs_equal_append(
            ProjectionTy::steps(&a.projection, &a.projection),
            Ty::steps(&a.ty, &a.ty),
        );
    }

    fn zip_with<Z: Zipper>(
        zipper: &mut Z,
        a: &Normalize,
        b: &Normalize,
    ) -> (r: Result<(), ZipError>) {
        let ghost z0 = *zipper;
        let r1 = ProjectionTy::zip_with(zipper, &a.projection, &b.projection);
        match r1 {
            Ok(()) => {},
            Err(e) => {
                proof {
                    lemma_runs_stop(
                        z0,
                        ProjectionTy::steps(&a.projection, &b.projection),
                        *zipper,
                        r1,
                        Ty::steps(&a.ty, &b.ty),
                    );
                }
                return Err(e);
            },
        }
        let ghost z1 = *zipper;
        proof {
            lemma_runs_ok_no_mismatch(
                z0,
                ProjectionTy::steps(&a.projection, &b.projection),
                z1,
                r1,
            );
        }
        let r2 = Ty::zip_with(zipper, &a.ty, &b.ty);
        proof {
            lemma_runs_append(
                z0,
                ProjectionTy::steps(&a.projection, &b.projection),
                z1,
                r1,
                Ty::steps(&a.ty, &b.ty),
                *zipper,
                r2,
            );
        }
        r2
    }
}

impl Zip for LifetimeOutlives {
    open spec fn compatible(a: &LifetimeOutlives, b: &LifetimeOutlives) -> bool {
        &&& Lifetime::compatible(&a.a, &b.a)
        &&& !has_mismatch(Lifetime::steps(&a.a, &b.a)) ==> Lifetime::compatible(&a.b, &b.b)
    }

    open spec fn steps(a: &LifetimeOutlives, b: &LifetimeOutlives) -> Seq<ZipStep> {
        Lifetime::steps(&a.a, &b.a) + Lifetime::steps(&a.b, &b.b)
    }

    proof fn lemma_self_zip(a: &LifetimeOutlives) {
        Lifetime::lemma_self_zip(&a.a);
        Lifetime::lemma_self_zip(&a.b);
        lemma_pairs_equal_append(Lifetime::steps(&a.a, &a.a), Lifetime::steps(&a.b, &a.b));
    }

    fn zip_with<Z: Zipper>(
        zipper: &mut Z,
        a: &LifetimeOutlives,
        b: &LifetimeOutlives,
    ) -> (r: Result<(), ZipError>) {
        let ghost z0 = *zipper;
        let r1 = Lifetime::zip_with(zipper, &a.a, &b.a);
        match r1 {
            Ok(()) => {},
            Err(e) => {
                proof {
                    lemma_runs_stop(
                        z0,
                        Lifetime::steps(&a.a, &b.a),
                        *zipper,
                        r1,
                        Lifetime::steps(&a.b, &b.b),
                    );
                }
                return Err(e);
            },
        }
        let ghost z1 = *zipper;
        proof {
            lemma_runs_ok_no_mismatch(z0, Lifetime::steps(&a.a, &b.a), z1, r1);
        }
        let r2 = Lifetime::zip_with(zipper, &a.b, &b.b);
        proof {
            lemma_runs_append(
                z0,
                Lifetime::steps(&a.a, &b.a),
                z1,
                r1,
                Lifetime::steps(&a.b, &b.b),
                *zipper,
                r2,
            );
        }
        r2
    }
}

impl Zip for TypeOutlives {
    open spec fn compatible(a: &TypeOutlives, b: &TypeOutlives) -> bool {
        &&& Ty::compatible(&a.ty, &b.ty)
        &&& !has_mismatch(Ty::steps(&a.ty, &b.ty)) ==>
            Lifetime::compatible(&a.lifetime, &b.lifetime)
    }

    open spec fn steps(a: &TypeOutlives, b: &TypeOutlives) -> Seq<ZipStep> {
        Ty::steps(&a.ty, &b.ty) + Lifetime::steps(&a.lifetime, &b.lifetime)
    }

    proof fn lemma_self_zip(a: &TypeOutlives) {
        Ty::lemma_self_zip(&a.ty);
        Lifetime::lemma_self_zip(&a.lifetime);
        lemma_pairs_equal_append(
            Ty::steps(&a.ty, &a.ty),
            Lifetime::steps(&a.lifetime, &a.lifetime),
        );
    }

    fn zip_with<Z: Zipper>(
        zipper: &mut Z,
        a: &TypeOutlives,
        b: &TypeOutlives,
    ) -> (r: Result<(), ZipError>) {
        let ghost z0 = *zipper;
        let r1 = Ty::zip_with(zipper, &a.ty, &b.ty);
        match r1 {
            Ok(()) => {},
            Err(e) => {
                proof {
                    lemma_runs_stop(
                        z0,
                        Ty::steps(&a.ty, &b.ty),
                        *zipper,
                        r1,
                        Lifetime::steps(&a.lifetime, &b.lifetime),
                    );
                }
                return Err(e);
            },
        }
        let ghost z1 = *zipper;
        proof {
            lemma_runs_ok_no_mismatch(z0, Ty::steps(&a.ty, &b.ty), z1, r1);
        }
        let r2 = Lifetime::zip_with(zipper, &a.lifetime, &b.lifetime);
        proof {
            lemma_runs_append(
                z0,
                Ty::steps(&a.ty, &b.ty),
                z1,
                r1,
                Lifetime::steps(&a.lifetime, &b.lifetime),
                *zipper,
                r2,
            );
        }
        r2
    }
}

impl Zip for ProgramClause {
    open spec fn compatible(a: &ProgramClause, b: &ProgramClause) -> bool {
        &&& WhereClause::compatible(&a.consequence, &b.consequence)
        &&& !has_mismatch(WhereClause::steps(&a.consequence, &b.consequence)) ==>
            Vec::<WhereClause>::compatible(&a.conditions, &b.conditions)
    }

    open spec fn steps(a: &ProgramClause, b: &ProgramClause) -> Seq<ZipStep> {
        WhereClause::steps(&a.consequence, &b.consequence)
            + Vec::<WhereClause>::steps(&a.conditions, &b.conditions)
    }

    proof fn lemma_self_zip(a: &ProgramClause) {
        WhereClause::lemma_self_zip(&a.consequence);
        Vec::<WhereClause>::lemma_self_zip(&a.conditions);
        lemma_pairs_equal_append(
            WhereClause::steps(&a.consequence, &a.consequence),
            Vec::<WhereClause>::steps(&a.conditions, &a.conditions),
        );
    }

    fn zip_with<Z: Zipper>(
        zipper: &mut Z,
        a: &ProgramClause,
        b: &ProgramClause,
    ) -> (r: Result<(), ZipError>) {
        let ghost z0 = *zipper;
        let r1 = WhereClause::zip_with(zipper, &a.consequence, &b.consequence);
        match r1 {
            Ok(()) => {},
            Err(e) => {
                proof {
                    lemma_runs_stop(
                        z0,
                        WhereClause::steps(&a.consequence, &b.consequence),
                        *zipper,
                        r1,
                        Vec::<WhereClause>::steps(&a.conditions, &b.conditions),
                    );
                }
                return Err(e);
            },
        }
        let ghost z1 = *zipper;
        proof {
            lemma_runs_ok_no_mismatch(
                z0,
                WhereClause::steps(&a.consequence, &b.consequence),
                z1,
                r1,
            );
        }
        let r2 = Vec::<WhereClause>::zip_with(zipper, &a.conditions, &b.conditions);
        proof {
            lemma_runs_append(
                z0,
                WhereClause::steps(&a.consequence, &b.consequence),
                z1,
                r1,
                Vec::<WhereClause>::steps(&a.conditions, &b.conditions),
                *zipper,
                r2,
            );
        }
        r2
    }
}

impl<T: Zip> Zip for InEnvironment<T> {
    open spec fn compatible(a: &InEnvironment<T>, b: &InEnvironment<T>) -> bool {
        &&& Environment::compatible(&a.environment, &b.environment)
        &&& !has_mismatch(Environment::steps(&a.environment, &b.environment)) ==>
            T::compatible(&a.goal, &b.goal)
    }

    open spec fn steps(a: &InEnvironment<T>, b: &InEnvironment<T>) -> Seq<ZipStep> {
        Environment::steps(&a.environment, &b.environment) + T::steps(&a.goal, &b.goal)
    }

    proof fn lemma_self_zip(a: &InEnvironment<T>) {
        Environment::lemma_self_zip(&a.environment);
        T::lemma_self_zip(&a.goal);
        lemma_pairs_equal_append(
            Environment::steps(&a.environment, &a.environment),
            T::steps(&a.goal, &a.goal),
        );
    }

    fn zip_with<Z: Zipper>(
        zipper: &mut Z,
        a: &InEnvironment<T>,
        b: &InEnvironment<T>,
    ) -> (r: Result<(), ZipError>) {
        let ghost z0 = *zipper;
        let r1 = Environment::zip_with(zipper, &a.environment, &b.environment);
        match r1 {
            Ok(()) => {},
            Err(e) => {
                proof {
                    lemma_runs_stop(
                        z0,
                        Environment::steps(&a.environment, &b.environment),
                        *zipper,
                        r1,
                        T::steps(&a.goal, &b.goal),
                    );
                }
                return Err(e);
            },
        }
        let ghost z1 = *zipper;
        proof {
            lemma_runs_ok_no_mismatch(
                z0,
                Environment::steps(&a.environment, &b.environment),
                z1,
                r1,
            );
        }
        let r2 = T::zip_with(zipper, &a.goal, &b.goal);
        proof {
            lemma_runs_append(
                z0,
                Environment::steps(&a.environment, &b.environment),
                z1,
                r1,
                T::steps(&a.goal, &b.goal),
                *zipper,
                r2,
            );
        }
        r2
    }
}

impl WhereClause {
    pub open spec fn spec_tag(&self) -> ShapeTag {
        match self {
            WhereClause::Implemented(_) => ShapeTag::Implemented,
            WhereClause::AliasEq(_) => ShapeTag::AliasEq,
            WhereClause::LifetimeOutlives(_) => ShapeTag::LifetimeOutlives,
            WhereClause::TypeOutlives(_) => ShapeTag::TypeOutlives,
        }
    }

    /// The variant that this value carries.
    pub fn tag(&self) -> (r: ShapeTag)
        ensures
            r == self.spec_tag(),
    {
        match self {
            WhereClause::Implemented(_) => ShapeTag::Implemented,
            WhereClause::AliasEq(_) => ShapeTag::AliasEq,
            WhereClause::LifetimeOutlives(_) => ShapeTag::LifetimeOutlives,
            WhereClause::TypeOutlives(_) => ShapeTag::TypeOutlives,
        }
    }
}

impl Zip for WhereClause {
    /// Payloads are paired only when the tags agree.
    open spec fn compatible(a: &WhereClause, b: &WhereClause) -> bool {
        match (a, b) {
            (WhereClause::Implemented(x), WhereClause::Implemented(y)) => {
                TraitRef::compatible(x, y)
            },
            (WhereClause::AliasEq(x), WhereClause::AliasEq(y)) => {
                Normalize::compatible(x, y)
            },
            (WhereClause::LifetimeOutlives(x), WhereClause::LifetimeOutlives(y)) => {
                LifetimeOutlives::compatible(x, y)
            },
            (WhereClause::TypeOutlives(x), WhereClause::TypeOutlives(y)) => {
                TypeOutlives::compatible(x, y)
            },
            _ => true,
        }
    }

    /// Different tags make a shape mismatch; equal ones the events of the
    /// payloads.
    open spec fn steps(a: &WhereClause, b: &WhereClause) -> Seq<ZipStep> {
        if a.spec_tag() != b.spec_tag() {
            seq![ZipStep::Mismatch(ZipError::ShapeMismatch(a.spec_tag(), b.spec_tag()))]
        } else {
            match (a, b) {
                (WhereClause::Implemented(x), WhereClause::Implemented(y)) => {
                    TraitRef::steps(x, y)
                },
                (WhereClause::AliasEq(x), WhereClause::AliasEq(y)) => {
                    Normalize::steps(x, y)
                },
                (WhereClause::LifetimeOutlives(x), WhereClause::LifetimeOutlives(y)) => {
                    LifetimeOutlives::steps(x, y)
                },
                (WhereClause::TypeOutlives(x), WhereClause::TypeOutlives(y)) => {
                    TypeOutlives::steps(x, y)
                },
                _ => Seq::empty(),
            }
        }
    }

    proof fn lemma_self_zip(a: &WhereClause) {
        match a {
            WhereClause::Implemented(x) => TraitRef::lemma_self_zip(x),
            WhereClause::AliasEq(x) => Normalize::lemma_self_zip(x),
            WhereClause::LifetimeOutlives(x) => LifetimeOutlives::lemma_self_zip(x),
            WhereClause::TypeOutlives(x) => TypeOutlives::lemma_self_zip(x),
        }
    }

    fn zip_with<Z: Zipper>(
        zipper: &mut Z,
        a: &WhereClause,
        b: &WhereClause,
    ) -> (r: Result<(), ZipError>) {
        match (a, b) {
            (WhereClause::Implemented(x), WhereClause::Implemented(y)) => {
                TraitRef::zip_with(zipper, x, y)
            },
            (WhereClause::AliasEq(x), WhereClause::AliasEq(y)) => {
                Normalize::zip_with(zipper, x, y)
            },
            (WhereClause::LifetimeOutlives(x), WhereClause::LifetimeOutlives(y)) => {
                LifetimeOutlives::zip_with(zipper, x, y)
            },
            (WhereClause::TypeOutlives(x), WhereClause::TypeOutlives(y)) => {
                TypeOutlives::zip_with(zipper, x, y)
            },
            _ => {
                let e = ZipError::ShapeMismatch(a.tag(), b.tag());
                proof {
                    lemma_runs_mismatch(*zipper, e, Seq::empty(), *zipper, Err(e));
                    assert(seq![ZipStep::Mismatch(e)] + Seq::<ZipStep>::empty() =~= Self::steps(
                        a,
                        b,
                    ));
                }
                Err(e)
            },
        }
    }
}

impl WhereClauseGoal {
    pub open spec fn spec_tag(&self) -> ShapeTag {
        match self {
            WhereClauseGoal::Implemented(_) => ShapeTag::Implemented,
            WhereClauseGoal::Normalize(_) => ShapeTag::Normalize,
        }
    }

    /// The variant that this value carries.
    pub fn tag(&self) -> (r: ShapeTag)
        ensures
            r == self.spec_tag(),
    {
        match self {
            WhereClauseGoal::Implemented(_) => ShapeTag::Implemented,
            WhereClauseGoal::Normalize(_) => ShapeTag::Normalize,
        }
    }
}

impl Zip for WhereClauseGoal {
    /// Payloads are paired only when the tags agree.
    open spec fn compatible(a: &WhereClauseGoal, b: &WhereClauseGoal) -> bool {
        match (a, b) {
            (WhereClauseGoal::Implemented(x), WhereClauseGoal::Implemented(y)) => {
                TraitRef::compatible(x, y)
            },
            (WhereClauseGoal::Normalize(x), WhereClauseGoal::Normalize(y)) => {
                Normalize::compatible(x, y)
            },
            _ => true,
        }
    }

    /// Different tags make a shape mismatch; equal ones the events of the
    /// payloads.
    open spec fn steps(a: &WhereClauseGoal, b: &WhereClauseGoal) -> Seq<ZipStep> {
        if a.spec_tag() != b.spec_tag() {
            seq![ZipStep::Mismatch(ZipError::ShapeMismatch(a.spec_tag(), b.spec_tag()))]
        } else {
            match (a, b) {
                (WhereClauseGoal::Implemented(x), WhereClauseGoal::Implemented(y)) => {
                    TraitRef::steps(x, y)
                },
                (WhereClauseGoal::Normalize(x), WhereClauseGoal::Normalize(y)) => {
                    Normalize::steps(x, y)
                },
                _ => Seq::empty(),
            }
        }
    }

    proof fn lemma_self_zip(a: &WhereClauseGoal) {
        match a {
            WhereClauseGoal::Implemented(x) => TraitRef::lemma_self_zip(x),
            WhereClauseGoal::Normalize(x) => Normalize::lemma_self_zip(x),
        }
    }

    fn zip_with<Z: Zipper>(
        zipper: &mut Z,
        a: &WhereClauseGoal,
        b: &WhereClauseGoal,
    ) -> (r: Result<(), ZipError>) {
        match (a, b) {
            (WhereClauseGoal::Implemented(x), WhereClauseGoal::Implemented(y)) => {
                TraitRef::zip_with(zipper, x, y)
            },
            (WhereClauseGoal::Normalize(x), WhereClauseGoal::Normalize(y)) => {
                Normalize::zip_with(zipper, x, y)
            },
            _ => {
                let e = ZipError::ShapeMismatch(a.tag(), b.tag());
                proof {
                    lemma_runs_mismatch(*zipper, e, Seq::empty(), *zipper, Err(e));
                    assert(seq![ZipStep::Mismatch(e)] + Seq::<ZipStep>::empty() =~= Self::steps(
                        a,
                        b,
                    ));
                }
                Err(e)
            },
        }
    }
}

impl Zip for Environment {
    /// Environments are only zipped when they are known to share their
    /// universe and their number of clauses.
    open spec fn compatible(a: &Environment, b: &Environment) -> bool {
        &&& a.universe == b.universe
        &&& a.clauses.len() == b.clauses.len()
        &&& Vec::<ProgramClause>::compatible(&a.clauses, &b.clauses)
    }

    open spec fn steps(a: &Environment, b: &Environment) -> Seq<ZipStep> {
        Vec::<ProgramClause>::steps(&a.clauses, &b.clauses)
    }

    proof fn lemma_self_zip(a: &Environment) {
        Vec::<ProgramClause>::lemma_self_zip(&a.clauses);
    }

    fn zip_with<Z: Zipper>(
        zipper: &mut Z,
        a: &Environment,
        b: &Environment,
    ) -> (r: Result<(), ZipError>) {
        // Environments of distinct universes or clause counts are never
        // zipped; meeting them is a bug of the caller, and it halts.
        if a.universe != b.universe || a.clauses.len() != b.clauses.len() {
            return unreached();
        }
        Vec::<ProgramClause>::zip_with(zipper, &a.clauses, &b.clauses)
    }
}

/// A zipper that accepts every pair of leaves and counts the pairs it was
/// handed.
pub struct LeafCounter {
    pub tys: u64,
    pub lifetimes: u64,
}

impl LeafCounter {
    pub fn new() -> (r: LeafCounter)
        ensures
            r.tys == 0,
            r.lifetimes == 0,
    {
        LeafCounter { tys: 0, lifetimes: 0 }
    }
}

/// `n + 1`, or `n` where that does not fit.
pub open spec fn count_up(n: u64) -> u64 {
    if n == u64::MAX {
        n
    } else {
        (n + 1) as u64
    }
}

impl Zipper for LeafCounter {
    open spec fn ty_step(
        &self,
        a: Ty,
        b: Ty,
        next: &LeafCounter,
        r: Result<(), ZipError>,
    ) -> bool {
        &&& r is Ok
        &&& next.tys == count_up(self.tys)
        &&& next.lifetimes == self.lifetimes
    }

    open spec fn lifetime_step(
        &self,
        a: Lifetime,
        b: Lifetime,
        next: &LeafCounter,
        r: Result<(), ZipError>,
    ) -> bool {
        &&& r is Ok
        &&& next.tys == self.tys
        &&& next.lifetimes == count_up(self.lifetimes)
    }

    fn zip_tys(&mut self, a: &Ty, b: &Ty) -> (r: Result<(), ZipError>) {
        if self.tys < u64::MAX {
            self.tys = self.tys + 1;
        }
        Ok(())
    }

    fn zip_lifetimes(&mut self, a: &Lifetime, b: &Lifetime) -> (r: Result<(), ZipError>) {
        if self.lifetimes < u64::MAX {
            self.lifetimes = self.lifetimes + 1;
        }
        Ok(())
    }
}

/// A borrowed zipper does what its target does.
impl<'f, Z: Zipper> Zipper for &'f mut Z {
    open spec fn ty_step(
        &self,
        a: Ty,
        b: Ty,
        next: &&'f mut Z,
        r: Result<(), ZipError>,
    ) -> bool {
        (**self).ty_step(a, b, &**next, r)
    }

    open spec fn lifetime_step(
        &self,
        a: Lifetime,
        b: Lifetime,
        next: &&'f mut Z,
        r: Result<(), ZipError>,
    ) -> bool {
        (**self).lifetime_step(a, b, &**next, r)
    }

    fn zip_tys(&mut self, a: &Ty, b: &Ty) -> (r: Result<(), ZipError>) {
        (**self).zip_tys(a, b)
    }

    fn zip_lifetimes(&mut self, a: &Lifetime, b: &Lifetime) -> (r: Result<(), ZipError>) {
        (**self).zip_lifetimes(a, b)
    }
}

/// Zipping two sequences of different lengths fails with an arity mismatch
/// that reports both lengths, whatever the elements are, and hands the zipper
/// no pair.
pub proof fn lemma_arity_mismatch<T: Zip, Z: Zipper>(
    a: &Vec<T>,
    b: &Vec<T>,
    z: Z,
    next: Z,
    r: Result<(), ZipError>,
)
    requires
        a.len() != b.len(),
    ensures
        Vec::<T>::compatible(a, b),
        runs(z, Vec::<T>::steps(a, b), next, r) <==> (next == z && r == Err::<(), ZipError>(
            ZipError::ArityMismatch(a.len(), b.len()),
        )),
{
    let e = ZipError::ArityMismatch(a.len(), b.len());
    lemma_runs_mismatch(z, e, Seq::empty(), next, r);
    assert(seq![ZipStep::Mismatch(e)] + Seq::<ZipStep>::empty() =~= Vec::<T>::steps(a, b));
}

/// Where-clauses with different tags never zip: the walk stops at once with a
/// shape mismatch naming both tags, and hands the zipper no pair. Two
/// `Implemented` clauses zip as their trait references do: the trait ids
/// first, then the parameters in order.
pub proof fn lemma_where_clause_tags<Z: Zipper>(
    a: &WhereClause,
    b: &WhereClause,
    z: Z,
    next: Z,
    r: Result<(), ZipError>,
)
    ensures
        a.spec_tag() != b.spec_tag() ==> {
            &&& WhereClause::compatible(a, b)
            &&& runs(z, WhereClause::steps(a, b), next, r) <==> (next == z && r == Err::<
                (),
                ZipError,
            >(ZipError::ShapeMismatch(a.spec_tag(), b.spec_tag())))
        },
        match (a, b) {
            (WhereClause::Implemented(x), WhereClause::Implemented(y)) => {
                &&& WhereClause::compatible(a, b) == TraitRef::compatible(x, y)
                &&& WhereClause::steps(a, b) == ItemId::steps(&x.trait_id, &y.trait_id)
                    + Vec::<Parameter>::steps(&x.parameters, &y.parameters)
                &&& x.trait_id != y.trait_id ==> (runs(z, WhereClause::steps(a, b), next, r) <==> (
                next == z && r == Err::<(), ZipError>(
                    ZipError::TokenMismatch(Token::Item(x.trait_id), Token::Item(y.trait_id)),
                )))
            },
            _ => true,
        },
{
    if a.spec_tag() != b.spec_tag() {
        let e = ZipError::ShapeMismatch(a.spec_tag(), b.spec_tag());
        lemma_runs_mismatch(z, e, Seq::empty(), next, r);
        assert(seq![ZipStep::Mismatch(e)] + Seq::<ZipStep>::empty() =~= WhereClause::steps(a, b));
    }
    match (a, b) {
        (WhereClause::Implemented(x), WhereClause::Implemented(y)) => {
            if x.trait_id != y.trait_id {
                let e = ZipError::TokenMismatch(Token::Item(x.trait_id), Token::Item(y.trait_id));
                lemma_runs_mismatch(
                    z,
                    e,
                    Vec::<Parameter>::steps(&x.parameters, &y.parameters),
                    next,
                    r,
                );
            }
        },
        _ => {},
    }
}

} // verus!
