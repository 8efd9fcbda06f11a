//! The evaluations that a proof carries: every polynomial of the protocol at
//! the challenge point and at the next point of the domain after it.

use crate::field::ScalarField;
use crate::polynomial::{eval_polynomial, poly_eval};
use crate::sponge::scalars_view;
use vstd::prelude::*;

verus! {

/// The number of columns of the witness.
pub const COLUMNS: usize = 15;

/// The number of columns that take part in the permutation.
pub const PERMUTS: usize = 7;

/// The number of columns of the sorted lookup table.
pub const LOOKUP_SORTED: usize = 5;

/// Two evaluations of one polynomial: at `zeta`, and at `zeta * omega`.
#[derive(Clone, Copy, Debug, PartialEq, Eq)]
pub struct PointEvaluations<Evals> {
    pub zeta: Evals,
    pub zeta_omega: Evals,
}

/// The evaluations of a proof. Those of a gate or of the lookup argument are
/// there if and only if the circuit uses it.
#[derive(Clone, Debug, PartialEq, Eq)]
pub struct ProofEvaluations<Evals> {
    pub w: [Evals; 15],
    pub z: Evals,
    pub s: [Evals; 6],
    pub coefficients: [Evals; 15],
    pub generic_selector: Evals,
    pub poseidon_selector: Evals,
    pub complete_add_selector: Evals,
    pub mul_selector: Evals,
    pub emul_selector: Evals,
    pub endomul_scalar_selector: Evals,
    pub range_check0_selector: Option<Evals>,
    pub range_check1_selector: Option<Evals>,
    pub foreign_field_add_selector: Option<Evals>,
    pub foreign_field_mul_selector: Option<Evals>,
    pub xor_selector: Option<Evals>,
    pub rot_selector: Option<Evals>,
    pub lookup_aggregation: Option<Evals>,
    pub lookup_table: Option<Evals>,
    pub lookup_sorted: [Option<Evals>; 5],
    pub runtime_lookup_table: Option<Evals>,
    pub runtime_lookup_table_selector: Option<Evals>,
    pub xor_lookup_selector: Option<Evals>,
    pub lookup_gate_lookup_selector: Option<Evals>,
    pub range_check_lookup_selector: Option<Evals>,
    pub foreign_field_mul_lookup_selector: Option<Evals>,
}

/// Evaluations in pieces, as numbers.
pub open spec fn chunked_view(e: PointEvaluations<Vec<ScalarField>>) -> PointEvaluations<Seq<nat>> {
    PointEvaluations { zeta: scalars_view(e.zeta@), zeta_omega: scalars_view(e.zeta_omega@) }
}

/// Evaluations that may be missing, as a sequence of none or one.
pub open spec fn optional_view(e: Option<PointEvaluations<Vec<ScalarField>>>) -> Seq<
    PointEvaluations<Seq<nat>>,
> {
    match e {
        Some(x) => seq![chunked_view(x)],
        None => Seq::empty(),
    }
}

/// The evaluations of the pieces put together: the pieces are the
/// coefficients of a polynomial in the power of the point that separates them.
pub open spec fn combined(
    e: PointEvaluations<Vec<ScalarField>>,
    pt: PointEvaluations<ScalarField>,
) -> PointEvaluations<nat> {
    PointEvaluations {
        zeta: poly_eval(scalars_view(e.zeta@), pt.zeta@),
        zeta_omega: poly_eval(scalars_view(e.zeta_omega@), pt.zeta_omega@),
    }
}

/// Whether `r` holds the evaluations of the pieces `e` put together.
pub open spec fn is_combined(
    r: PointEvaluations<ScalarField>,
    e: PointEvaluations<Vec<ScalarField>>,
    pt: PointEvaluations<ScalarField>,
) -> bool {
    r.zeta@ == combined(e, pt).zeta && r.zeta_omega@ == combined(e, pt).zeta_omega
}

/// The same for evaluations that may be missing.
pub open spec fn is_combined_option(
    r: Option<PointEvaluations<ScalarField>>,
    e: Option<PointEvaluations<Vec<ScalarField>>>,
    pt: PointEvaluations<ScalarField>,
) -> bool {
    match e {
        Some(x) => r is Some && is_combined(r->Some_0, x, pt),
        None => r is None,
    }
}

impl PointEvaluations<Vec<ScalarField>> {
    /// The two evaluations of a constant polynomial.
    pub fn constant(x: ScalarField) -> (r: Self)
        ensures
            r.zeta@ == seq![x],
            r.zeta_omega@ == seq![x],
    {
        PointEvaluations { zeta: vec![x], zeta_omega: vec![x] }
    }

    /// Puts the pieces together, given the powers of the two points that
    /// separate them.
    pub fn combine(&self, pt: &PointEvaluations<ScalarField>) -> (r: PointEvaluations<ScalarField>)
        ensures
            is_combined(r, *self, *pt),
    {
        PointEvaluations {
            zeta: eval_polynomial(self.zeta.as_slice(), &pt.zeta),
            zeta_omega: eval_polynomial(self.zeta_omega.as_slice(), &pt.zeta_omega),
        }
    }
}

/// Puts together the pieces of evaluations that may be missing.
fn combine_option(
    e: &Option<PointEvaluations<Vec<ScalarField>>>,
    pt: &PointEvaluations<ScalarField>,
) -> (r: Option<PointEvaluations<ScalarField>>)
    ensures
        is_combined_option(r, *e, *pt),
{
    match e {
        Some(x) => Some(x.combine(pt)),
        None => None,
    }
}

/// The views of a list of evaluations.
pub open spec fn views(list: Seq<&PointEvaluations<Vec<ScalarField>>>) -> Seq<
    PointEvaluations<Seq<nat>>,
> {
    list.map_values(|e: &PointEvaluations<Vec<ScalarField>>| chunked_view(*e))
}

/// Appends each of the evaluations to the list.
fn push_all<'a>(
    list: &mut Vec<&'a PointEvaluations<Vec<ScalarField>>>,
    evals: &'a [PointEvaluations<Vec<ScalarField>>],
)
    ensures
        views(final(list)@) == views(old(list)@) + evals@.map_values(
            |e: PointEvaluations<Vec<ScalarField>>| chunked_view(e),
        ),
{
    let mut i: usize = 0;
    proof {
        assert(views(list@) =~= views(old(list)@) + evals@.take(0).map_values(
            |e: PointEvaluations<Vec<ScalarField>>| chunked_view(e),
        ));
    }
    while i < evals.len()
        invariant
            i <= evals.len(),
            views(list@) == views(old(list)@) + evals@.take(i as int).map_values(
                |e: PointEvaluations<Vec<ScalarField>>| chunked_view(e),
            ),
        decreases evals.len() - i,
    {
        proof {
            assert(views(list@.push(&evals[i as int])) =~= views(list@).push(
                chunked_view(evals[i as int]),
            ));
            assert(views(old(list)@) + evals@.take(i + 1).map_values(
                |e: PointEvaluations<Vec<ScalarField>>| chunked_view(e),
            ) =~= (views(old(list)@) + evals@.take(i as int).map_values(
                |e: PointEvaluations<Vec<ScalarField>>| chunked_view(e),
            )).push(chunked_view(evals[i as int])));
        }
        list.push(&evals[i]);
        i += 1;
    }
    proof {
        assert(evals@.take(evals.len() as int) == evals@);
    }
}

/// Appends the evaluations to the list, if there are any.
fn push_option<'a>(
    list: &mut Vec<&'a PointEvaluations<Vec<ScalarField>>>,
    evals: &'a Option<PointEvaluations<Vec<ScalarField>>>,
)
    ensures
        views(final(list)@) == views(old(list)@) + optional_view(*evals),
{
    match evals {
        Some(e) => {
            proof {
                assert(views(list@.push(e)) =~= views(list@) + optional_view(*evals));
            }
            list.push(e);
        },
        None => {
            proof {
                assert(views(list@) =~= views(list@) + optional_view(*evals));
            }
        },
    }
}

impl ProofEvaluations<PointEvaluations<Vec<ScalarField>>> {
    /// The evaluations in the order in which a transcript takes them: the
    /// permutation aggregation, the selectors, the witness, the coefficients,
    /// the permutation, then whatever the circuit's optional parts add.
    pub open spec fn in_order(&self) -> Seq<PointEvaluations<Seq<nat>>> {
        seq![
            chunked_view(self.z),
            chunked_view(self.generic_selector),
            chunked_view(self.poseidon_selector),
            chunked_view(self.complete_add_selector),
            chunked_view(self.mul_selector),
            chunked_view(self.emul_selector),
            chunked_view(self.endomul_scalar_selector),
        ] + self.w@.map_values(|e: PointEvaluations<Vec<ScalarField>>| chunked_view(e))
            + self.coefficients@.map_values(|e: PointEvaluations<Vec<ScalarField>>| chunked_view(e))
            + self.s@.map_values(|e: PointEvaluations<Vec<ScalarField>>| chunked_view(e))
            + optional_view(self.range_check0_selector) + optional_view(self.range_check1_selector)
            + optional_view(self.foreign_field_add_selector) + optional_view(
            self.foreign_field_mul_selector,
        ) + optional_view(self.xor_selector) + optional_view(self.rot_selector) + optional_view(
            self.lookup_aggregation,
        ) + optional_view(self.lookup_table) + optional_view(self.lookup_sorted[0])
            + optional_view(self.lookup_sorted[1]) + optional_view(self.lookup_sorted[2])
            + optional_view(self.lookup_sorted[3]) + optional_view(self.lookup_sorted[4])
            + optional_view(self.runtime_lookup_table) + optional_view(
            self.runtime_lookup_table_selector,
        ) + optional_view(self.xor_lookup_selector) + optional_view(
            self.lookup_gate_lookup_selector,
        ) + optional_view(self.range_check_lookup_selector) + optional_view(
            self.foreign_field_mul_lookup_selector,
        )
    }

    /// The evaluations in the order in which a transcript takes them.
    pub fn to_ordered(&self) -> (list: Vec<&PointEvaluations<Vec<ScalarField>>>)
        ensures
            list@.map_values(|e: &PointEvaluations<Vec<ScalarField>>| chunked_view(*e))
                == self.in_order(),
    {
        let mut list: Vec<&PointEvaluations<Vec<ScalarField>>> = Vec::new();
        list.push(&self.z);
        list.push(&self.generic_selector);
        list.push(&self.poseidon_selector);
        list.push(&self.complete_add_selector);
        list.push(&self.mul_selector);
        list.push(&self.emul_selector);
        list.push(&self.endomul_scalar_selector);
        let ghost selectors = views(list@);
        push_all(&mut list, self.w.as_slice());
        push_all(&mut list, self.coefficients.as_slice());
        push_all(&mut list, self.s.as_slice());
        push_option(&mut list, &self.range_check0_selector);
        push_option(&mut list, &self.range_check1_selector);
        push_option(&mut list, &self.foreign_field_add_selector);
        push_option(&mut list, &self.foreign_field_mul_selector);
        push_option(&mut list, &self.xor_selector);
        push_option(&mut list, &self.rot_selector);
        push_option(&mut list, &self.lookup_aggregation);
        push_option(&mut list, &self.lookup_table);
        push_option(&mut list, &self.lookup_sorted[0]);
        push_option(&mut list, &self.lookup_sorted[1]);
        push_option(&mut list, &self.lookup_sorted[2]);
        push_option(&mut list, &self.lookup_sorted[3]);
        push_option(&mut list, &self.lookup_sorted[4]);
        push_option(&mut list, &self.runtime_lookup_table);
        push_option(&mut list, &self.runtime_lookup_table_selector);
        push_option(&mut list, &self.xor_lookup_selector);
        push_option(&mut list, &self.lookup_gate_lookup_selector);
        push_option(&mut list, &self.range_check_lookup_selector);
        push_option(&mut list, &self.foreign_field_mul_lookup_selector);
        proof {
            assert(selectors =~= seq![
                chunked_view(self.z),
                chunked_view(self.generic_selector),
                chunked_view(self.poseidon_selector),
                chunked_view(self.complete_add_selector),
                chunked_view(self.mul_selector),
                chunked_view(self.emul_selector),
                chunked_view(self.endomul_scalar_selector),
            ]);
        }
        list
    }

    /// Whether `r` holds these evaluations with their pieces put together.
    pub open spec fn combines_to(
        &self,
        r: ProofEvaluations<PointEvaluations<ScalarField>>,
        pt: PointEvaluations<ScalarField>,
    ) -> bool {
        &&& forall|i: int| 0 <= i < 15 ==> is_combined(#[trigger] r.w[i], self.w[i], pt)
        &&& is_combined(r.z, self.z, pt)
        &&& forall|i: int| 0 <= i < 6 ==> is_combined(#[trigger] r.s[i], self.s[i], pt)
        &&& forall|i: int|
            0 <= i < 15 ==> is_combined(#[trigger] r.coefficients[i], self.coefficients[i], pt)
        &&& is_combined(r.generic_selector, self.generic_selector, pt)
        &&& is_combined(r.poseidon_selector, self.poseidon_selector, pt)
        &&& is_combined(r.complete_add_selector, self.complete_add_selector, pt)
        &&& is_combined(r.mul_selector, self.mul_selector, pt)
        &&& is_combined(r.emul_selector, self.emul_selector, pt)
        &&& is_combined(r.endomul_scalar_selector, self.endomul_scalar_selector, pt)
        &&& is_combined_option(r.range_check0_selector, self.range_check0_selector, pt)
        &&& is_combined_option(r.range_check1_selector, self.range_check1_selector, pt)
        &&& is_combined_option(r.foreign_field_add_selector, self.foreign_field_add_selector, pt)
        &&& is_combined_option(r.foreign_field_mul_selector, self.foreign_field_mul_selector, pt)
        &&& is_combined_option(r.xor_selector, self.xor_selector, pt)
        &&& is_combined_option(r.rot_selector, self.rot_selector, pt)
        &&& is_combined_option(r.lookup_aggregation, self.lookup_aggregation, pt)
        &&& is_combined_option(r.lookup_table, self.lookup_table, pt)
        &&& forall|i: int|
            0 <= i < 5 ==> is_combined_option(
                #[trigger] r.lookup_sorted[i],
                self.lookup_sorted[i],
                pt,
            )
        &&& is_combined_option(r.runtime_lookup_table, self.runtime_lookup_table, pt)
        &&& is_combined_option(
            r.runtime_lookup_table_selector,
            self.runtime_lookup_table_selector,
            pt,
        )
        &&& is_combined_option(r.xor_lookup_selector, self.xor_lookup_selector, pt)
        &&& is_combined_option(r.lookup_gate_lookup_selector, self.lookup_gate_lookup_selector, pt)
        &&& is_combined_option(r.range_check_lookup_selector, self.range_check_lookup_selector, pt)
        &&& is_combined_option(
            r.foreign_field_mul_lookup_selector,
            self.foreign_field_mul_lookup_selector,
            pt,
        )
    }

    /// Puts the pieces of every evaluation together: `pt` holds the powers of
    /// the two points that separate the pieces.
    pub fn combine(&self, pt: &PointEvaluations<ScalarField>) -> (r: ProofEvaluations<
        PointEvaluations<ScalarField>,
    >)
        ensures
            self.combines_to(r, *pt),
    {
        ProofEvaluations {
            w: [
                self.w[0].combine(pt),
                self.w[1].combine(pt),
                self.w[2].combine(pt),
                self.w[3].combine(pt),
                self.w[4].combine(pt),
                self.w[5].combine(pt),
                self.w[6].combine(pt),
                self.w[7].combine(pt),
                self.w[8].combine(pt),
                self.w[9].combine(pt),
                self.w[10].combine(pt),
                self.w[11].combine(pt),
                self.w[12].combine(pt),
                self.w[13].combine(pt),
                self.w[14].combine(pt),
            ],
            z: self.z.combine(pt),
            s: [
                self.s[0].combine(pt),
                self.s[1].combine(pt),
                self.s[2].combine(pt),
                self.s[3].combine(pt),
                self.s[4].combine(pt),
                self.s[5].combine(pt),
            ],
            coefficients: [
                self.coefficients[0].combine(pt),
                self.coefficients[1].combine(pt),
                self.coefficients[2].combine(pt),
                self.coefficients[3].combine(pt),
                self.coefficients[4].combine(pt),
                self.coefficients[5].combine(pt),
                self.coefficients[6].combine(pt),
                self.coefficients[7].combine(pt),
                self.coefficients[8].combine(pt),
                self.coefficients[9].combine(pt),
                self.coefficients[10].combine(pt),
                self.coefficients[11].combine(pt),
                self.coefficients[12].combine(pt),
                self.coefficients[13].combine(pt),
                self.coefficients[14].combine(pt),
            ],
            generic_selector: self.generic_selector.combine(pt),
            poseidon_selector: self.poseidon_selector.combine(pt),
            complete_add_selector: self.complete_add_selector.combine(pt),
            mul_selector: self.mul_selector.combine(pt),
            emul_selector: self.emul_selector.combine(pt),
            endomul_scalar_selector: self.endomul_scalar_selector.combine(pt),
            range_check0_selector: combine_option(&self.range_check0_selector, pt),
            range_check1_selector: combine_option(&self.range_check1_selector, pt),
            foreign_field_add_selector: combine_option(&self.foreign_field_add_selector, pt),
            foreign_field_mul_selector: combine_option(&self.foreign_field_mul_selector, pt),
            xor_selector: combine_option(&self.xor_selector, pt),
            rot_selector: combine_option(&self.rot_selector, pt),
            lookup_aggregation: combine_option(&self.lookup_aggregation, pt),
            lookup_table: combine_option(&self.lookup_table, pt),
            lookup_sorted: [
                combine_option(&self.lookup_sorted[0], pt),
                combine_option(&self.lookup_sorted[1], pt),
                combine_option(&self.lookup_sorted[2], pt),
                combine_option(&self.lookup_sorted[3], pt),
                combine_option(&self.lookup_sorted[4], pt),
            ],
            runtime_lookup_table: combine_option(&self.runtime_lookup_table, pt),
            runtime_lookup_table_selector: combine_option(&self.runtime_lookup_table_selector, pt),
            xor_lookup_selector: combine_option(&self.xor_lookup_selector, pt),
            lookup_gate_lookup_selector: combine_option(&self.lookup_gate_lookup_selector, pt),
            range_check_lookup_selector: combine_option(&self.range_check_lookup_selector, pt),
            foreign_field_mul_lookup_selector: combine_option(
                &self.foreign_field_mul_lookup_selector,
                pt,
            ),
        }
    }
}

} // verus!
