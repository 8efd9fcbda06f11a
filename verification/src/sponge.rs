//! The transcript: two sponges that turn what the prover has committed to into
//! the verifier's challenges.

use crate::curve::{points_view, Point, PointView};
use crate::evaluations::{PointEvaluations, ProofEvaluations};
use crate::field::{BaseField, ScalarField};
use crate::scalar_challenge::ScalarChallenge;
use vstd::prelude::*;

verus! {

/// The views of a sequence of scalar-field elements.
pub open spec fn scalars_view(s: Seq<ScalarField>) -> Seq<nat> {
    s.map_values(|x: ScalarField| x@)
}

/// The views of a sequence of base-field elements.
pub open spec fn bases_view(s: Seq<BaseField>) -> Seq<nat> {
    s.map_values(|x: BaseField| x@)
}

/// One step in the life of a base-field sponge.
pub enum FqSpongeStep {
    AbsorbG(Seq<PointView>),
    AbsorbFq(Seq<nat>),
    AbsorbFr(Seq<nat>),
    Challenge,
    ChallengeFq,
}

/// A sponge over the base field. It absorbs commitments and field elements and
/// hands out challenges, each of which depends on all that went before.
pub trait FqSponge: Sized {
    /// The steps taken so far, oldest first.
    open spec fn transcript(&self) -> Seq<FqSpongeStep> {
        arbitrary()
    }

    /// The scalar-field element that a sponge squeezes out after `steps`.
    open spec fn squeeze(steps: Seq<FqSpongeStep>) -> nat {
        arbitrary()
    }

    /// The base-field element that a sponge squeezes out after `steps`.
    open spec fn squeeze_fq(steps: Seq<FqSpongeStep>) -> nat {
        arbitrary()
    }

    /// A sponge that has absorbed nothing.
    fn new() -> (s: Self)
        ensures
            s.transcript() == Seq::<FqSpongeStep>::empty(),
    ;

    /// A second sponge in the state of this one.
    fn fork(&self) -> (s: Self)
        ensures
            s.transcript() == self.transcript(),
    ;

    /// Absorbs curve points.
    fn absorb_g(&mut self, g: &[Point])
        ensures
            final(self).transcript() == old(self).transcript().push(
                FqSpongeStep::AbsorbG(points_view(g@)),
            ),
    ;

    /// Absorbs base-field elements.
    fn absorb_fq(&mut self, x: &[BaseField])
        ensures
            final(self).transcript() == old(self).transcript().push(
                FqSpongeStep::AbsorbFq(bases_view(x@)),
            ),
    ;

    /// Absorbs scalar-field elements.
    fn absorb_fr(&mut self, x: &[ScalarField])
        ensures
            final(self).transcript() == old(self).transcript().push(
                FqSpongeStep::AbsorbFr(scalars_view(x@)),
            ),
    ;

    /// Squeezes a challenge in the scalar field.
    fn challenge(&mut self) -> (c: ScalarField)
        ensures
            c@ == Self::squeeze(old(self).transcript()),
            final(self).transcript() == old(self).transcript().push(FqSpongeStep::Challenge),
    ;

    /// Squeezes a challenge in the base field.
    fn challenge_fq(&mut self) -> (c: BaseField)
        ensures
            c@ == Self::squeeze_fq(old(self).transcript()),
            final(self).transcript() == old(self).transcript().push(FqSpongeStep::ChallengeFq),
    ;

    /// Ends the sponge's life with a digest in the scalar field.
    fn digest(self) -> (d: ScalarField)
        ensures
            d@ == Self::squeeze(self.transcript()),
    ;

    /// Ends the sponge's life with a digest in the base field.
    fn digest_fq(self) -> (d: BaseField)
        ensures
            d@ == Self::squeeze_fq(self.transcript()),
    ;
}

/// A base-field sponge that ignores what it absorbs and always answers one.
/// It is a stand-in for tests and gives no security whatever.
#[derive(Clone)]
pub struct DummyFqSponge {
    steps: Ghost<Seq<FqSpongeStep>>,
}

impl FqSponge for DummyFqSponge {
    closed spec fn transcript(&self) -> Seq<FqSpongeStep> {
        self.steps@
    }

    open spec fn squeeze(steps: Seq<FqSpongeStep>) -> nat {
        1
    }

    open spec fn squeeze_fq(steps: Seq<FqSpongeStep>) -> nat {
        1
    }

    fn new() -> (s: Self) {
        DummyFqSponge { steps: Ghost(Seq::empty()) }
    }

    fn fork(&self) -> (s: Self) {
        DummyFqSponge { steps: self.steps }
    }

    fn absorb_g(&mut self, g: &[Point]) {
        self.steps = Ghost(self.steps@.push(FqSpongeStep::AbsorbG(points_view(g@))));
    }

    fn absorb_fq(&mut self, x: &[BaseField]) {
        self.steps = Ghost(self.steps@.push(FqSpongeStep::AbsorbFq(bases_view(x@))));
    }

    fn absorb_fr(&mut self, x: &[ScalarField]) {
        self.steps = Ghost(self.steps@.push(FqSpongeStep::AbsorbFr(scalars_view(x@))));
    }

    fn challenge(&mut self) -> (c: ScalarField) {
        self.steps = Ghost(self.steps@.push(FqSpongeStep::Challenge));
        ScalarField::one()
    }

    fn challenge_fq(&mut self) -> (c: BaseField) {
        self.steps = Ghost(self.steps@.push(FqSpongeStep::ChallengeFq));
        BaseField::one()
    }

    fn digest(self) -> (d: ScalarField) {
        ScalarField::one()
    }

    fn digest_fq(self) -> (d: BaseField) {
        BaseField::one()
    }
}

/// One step in the life of a scalar-field sponge.
pub enum FrSpongeStep {
    Absorb(nat),
    AbsorbMultiple(Seq<nat>),
    AbsorbEvaluations(Seq<PointEvaluations<Seq<nat>>>),
    Challenge,
}

/// A sponge over the scalar field. It absorbs evaluations and hands out the
/// challenges that batch the opening.
pub trait FrSponge: Sized {
    /// The steps taken so far, oldest first.
    open spec fn transcript(&self) -> Seq<FrSpongeStep> {
        arbitrary()
    }

    /// The element that a sponge squeezes out after `steps`.
    open spec fn squeeze(steps: Seq<FrSpongeStep>) -> nat {
        arbitrary()
    }

    /// A sponge that has absorbed nothing.
    fn new() -> (s: Self)
        ensures
            s.transcript() == Seq::<FrSpongeStep>::empty(),
    ;

    /// Absorbs one element.
    fn absorb(&mut self, x: &ScalarField)
        ensures
            final(self).transcript() == old(self).transcript().push(FrSpongeStep::Absorb(x@)),
    ;

    /// Absorbs several elements.
    fn absorb_multiple(&mut self, x: &[ScalarField])
        ensures
            final(self).transcript() == old(self).transcript().push(
                FrSpongeStep::AbsorbMultiple(scalars_view(x@)),
            ),
    ;

    /// Squeezes a challenge, still to be mapped into the field.
    fn challenge(&mut self) -> (c: ScalarChallenge)
        ensures
            c.0@ == Self::squeeze(old(self).transcript()),
            final(self).transcript() == old(self).transcript().push(FrSpongeStep::Challenge),
    ;

    /// Ends the sponge's life with a digest.
    fn digest(self) -> (d: ScalarField)
        ensures
            d@ == Self::squeeze(self.transcript()),
    ;

    /// Absorbs the evaluations of a proof, in their order.
    fn absorb_evaluations(&mut self, e: &ProofEvaluations<PointEvaluations<Vec<ScalarField>>>)
        ensures
            final(self).transcript() == old(self).transcript().push(
                FrSpongeStep::AbsorbEvaluations(e.in_order()),
            ),
    ;
}

/// A scalar-field sponge that ignores what it absorbs and always answers
/// one. It is a stand-in for tests and gives no security whatever.
#[derive(Clone)]
pub struct DummyFrSponge {
    steps: Ghost<Seq<FrSpongeStep>>,
}

impl FrSponge for DummyFrSponge {
    closed spec fn transcript(&self) -> Seq<FrSpongeStep> {
        self.steps@
    }

    open spec fn squeeze(steps: Seq<FrSpongeStep>) -> nat {
        1
    }

    fn new() -> (s: Self) {
        DummyFrSponge { steps: Ghost(Seq::empty()) }
    }

    fn absorb(&mut self, x: &ScalarField) {
        self.steps = Ghost(self.steps@.push(FrSpongeStep::Absorb(x@)));
    }

    fn absorb_multiple(&mut self, x: &[ScalarField]) {
        self.steps = Ghost(self.steps@.push(FrSpongeStep::AbsorbMultiple(scalars_view(x@))));
    }

    fn challenge(&mut self) -> (c: ScalarChallenge) {
        self.steps = Ghost(self.steps@.push(FrSpongeStep::Challenge));
        ScalarChallenge(ScalarField::one())
    }

    fn digest(self) -> (d: ScalarField) {
        ScalarField::one()
    }

    fn absorb_evaluations(&mut self, e: &ProofEvaluations<PointEvaluations<Vec<ScalarField>>>) {
        self.steps = Ghost(self.steps@.push(FrSpongeStep::AbsorbEvaluations(e.in_order())));
    }
}

/// The digest of a public input: what a fresh sponge answers once it has
/// absorbed the input.
pub fn hash_public_input<EFqSponge: FqSponge>(public_input: &[ScalarField]) -> (d: ScalarField)
    ensures
        d@ == EFqSponge::squeeze(seq![FqSpongeStep::AbsorbFr(scalars_view(public_input@))]),
{
    let mut tmp_sponge = EFqSponge::new();
    tmp_sponge.absorb_fr(public_input);
    tmp_sponge.digest()
}

} // verus!
