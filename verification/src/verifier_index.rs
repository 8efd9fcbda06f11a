//! The verifier index: what a verifier knows of a circuit before it sees any
//! proof. The one built here is that of the circuit which only exposes its
//! public input, and it is a function of the public parameters alone.

use crate::commitment::{PolyComm, SRS};
use crate::curve::{pallas_mul, points_view, Point, PointView};
use crate::domain::Domain;
use crate::field::{fpow, ScalarField};
use crate::permutation::{canonical_shifts, cosets_distinct, Shifts, CONSTRAINTS, ZK_ROWS};
use crate::scalar_challenge::{endo_coefficient, scalar_endo_coefficient};
use crate::sponge::{scalars_view, FqSponge, FqSpongeStep};
use vstd::prelude::*;

verus! {

/// The lookup patterns that a circuit may use.
#[derive(Clone, Copy, Debug, PartialEq, Eq)]
pub struct LookupPatterns {
    pub xor: bool,
    pub lookup: bool,
    pub range_check: bool,
    pub foreign_field_mul: bool,
}

/// What a circuit uses of the lookup argument.
#[derive(Clone, Copy, Debug, PartialEq, Eq)]
pub struct LookupFeatures {
    pub patterns: LookupPatterns,
    pub joint_lookup_used: bool,
    pub uses_runtime_tables: bool,
}

/// The optional parts of the protocol that a circuit uses. Prover and
/// verifier read them from the index, so they cannot disagree.
#[derive(Clone, Copy, Debug, PartialEq, Eq)]
pub struct FeatureFlags {
    pub range_check0: bool,
    pub range_check1: bool,
    pub lookup_features: LookupFeatures,
    pub foreign_field_add: bool,
    pub foreign_field_mul: bool,
    pub xor: bool,
    pub rot: bool,
}

/// The number of powers of `alpha` kept for the constraints of a row: the
/// largest number of constraints that one row can carry.
pub const GATE_CONSTRAINTS: u32 = 21;

/// Which powers of `alpha` belong to which argument. The gates take the first
/// `gates` powers, the permutation the `permutation` powers after them.
#[derive(Clone, Copy, Debug, PartialEq, Eq)]
pub struct Alphas {
    pub gates: u32,
    pub permutation: u32,
}

impl Alphas {
    /// The three powers of `alpha` of the permutation argument.
    pub fn permutation_alphas(&self, alpha: &ScalarField) -> (r: [ScalarField; 3])
        ensures
            forall|k: int| 0 <= k < 3 ==> (#[trigger] r[k])@ == fpow(alpha@, (self.gates + k) as nat),
    {
        let first = self.gates as u64;
        [alpha.pow(first), alpha.pow(first + 1), alpha.pow(first + 2)]
    }
}

/// What the linearized polynomial of a circuit is made of: which arguments
/// add a commitment of the index, times a scalar, to it. Here the generic gate
/// adds none, for its selector and coefficients are constants; the
/// permutation adds its last column; the lookup argument is not there.
#[derive(Clone, Copy, Debug, PartialEq, Eq)]
pub struct Linearization {
    pub generic: bool,
    pub permutation: bool,
    pub lookup: bool,
}

/// The part of the index that belongs to the lookup argument.
#[derive(Clone, Debug, PartialEq, Eq)]
pub struct LookupVerifierIndex {
    pub joint_lookup_used: bool,
    pub lookup_table: Vec<PolyComm<Point>>,
    pub table_ids: Option<PolyComm<Point>>,
    pub runtime_tables_selector: Option<PolyComm<Point>>,
}

/// Why no index can be built from the given parameters.
#[derive(Clone, Copy, Debug, PartialEq, Eq)]
pub enum ConfigurationError {
    /// The public parameters hold fewer than two generators.
    SRSTooSmall,
    /// The domain has no room for the rows that are left to blinding.
    DomainTooSmall,
    /// Two of the shifts lie in the same coset of the domain.
    ShiftsCollide,
}

/// The verifier index.
#[derive(Clone, Debug, PartialEq, Eq)]
pub struct VerifierIndex {
    pub domain: Domain,
    pub max_poly_size: usize,
    pub srs: SRS,
    pub public: usize,
    pub prev_challenges: usize,
    pub sigma_comm: [PolyComm<Point>; 7],
    pub coefficients_comm: [PolyComm<Point>; 15],
    pub generic_comm: PolyComm<Point>,
    pub psm_comm: PolyComm<Point>,
    pub complete_add_comm: PolyComm<Point>,
    pub mul_comm: PolyComm<Point>,
    pub emul_comm: PolyComm<Point>,
    pub endomul_scalar_comm: PolyComm<Point>,
    pub range_check0_comm: Option<PolyComm<Point>>,
    pub range_check1_comm: Option<PolyComm<Point>>,
    pub foreign_field_add_comm: Option<PolyComm<Point>>,
    pub foreign_field_mul_comm: Option<PolyComm<Point>>,
    pub xor_comm: Option<PolyComm<Point>>,
    pub rot_comm: Option<PolyComm<Point>>,
    pub shift: [ScalarField; 7],
    pub endo: ScalarField,
    pub lookup_index: Option<LookupVerifierIndex>,
    pub feature_flags: FeatureFlags,
    pub linearization: Linearization,
    pub powers_of_alpha: Alphas,
}

/// Whether `c` is a commitment of the one piece `p`, without a shifted part.
pub open spec fn is_single(c: PolyComm<Point>, p: PointView) -> bool {
    points_view(c.unshifted@) == seq![p] && c.shifted is None
}

/// The step by which the pieces of a commitment enter a sponge.
pub open spec fn unshifted_step(c: PolyComm<Point>) -> FqSpongeStep {
    FqSpongeStep::AbsorbG(points_view(c.unshifted@))
}

/// A commitment that may be missing, as a sequence of none or one.
pub open spec fn optional_commitment(c: Option<PolyComm<Point>>) -> Seq<PolyComm<Point>> {
    match c {
        Some(x) => seq![x],
        None => Seq::empty(),
    }
}

/// The commitments of the lookup part of an index, in the order of its
/// digest.
pub open spec fn lookup_commitments(l: Option<LookupVerifierIndex>) -> Seq<PolyComm<Point>> {
    match l {
        Some(x) => x.lookup_table@ + optional_commitment(x.table_ids) + optional_commitment(
            x.runtime_tables_selector,
        ),
        None => Seq::empty(),
    }
}

/// The steps by which the pieces of a run of commitments enter a sponge.
pub open spec fn unshifted_steps(comms: Seq<PolyComm<Point>>) -> Seq<FqSpongeStep> {
    comms.map_values(|c: PolyComm<Point>| unshifted_step(c))
}

/// Feeds the pieces of each commitment to a sponge that has taken those of
/// `before`.
fn absorb_unshifted<EFqSponge: FqSponge>(
    sponge: &mut EFqSponge,
    comms: &[PolyComm<Point>],
    Ghost(before): Ghost<Seq<PolyComm<Point>>>,
)
    requires
        old(sponge).transcript() == unshifted_steps(before),
    ensures
        final(sponge).transcript() == unshifted_steps(before + comms@),
{
    let mut i: usize = 0;
    proof {
        assert(before + comms@.take(0) == before);
    }
    while i < comms.len()
        invariant
            i <= comms.len(),
            sponge.transcript() == unshifted_steps(before + comms@.take(i as int)),
        decreases comms.len() - i,
    {
        sponge.absorb_g(comms[i].unshifted.as_slice());
        proof {
            assert(before + comms@.take(i + 1) == (before + comms@.take(i as int)).push(
                comms[i as int],
            ));
            assert(unshifted_steps((before + comms@.take(i as int)).push(comms[i as int]))
                == unshifted_steps(before + comms@.take(i as int)).push(
                unshifted_step(comms[i as int]),
            ));
        }
        i += 1;
    }
    proof {
        assert(comms@.take(comms.len() as int) == comms@);
    }
}

/// Feeds the pieces of one commitment to a sponge that has taken those of
/// `before`.
fn absorb_unshifted_one<EFqSponge: FqSponge>(
    sponge: &mut EFqSponge,
    comm: &PolyComm<Point>,
    Ghost(before): Ghost<Seq<PolyComm<Point>>>,
)
    requires
        old(sponge).transcript() == unshifted_steps(before),
    ensures
        final(sponge).transcript() == unshifted_steps(before.push(*comm)),
{
    sponge.absorb_g(comm.unshifted.as_slice());
    proof {
        assert(unshifted_steps(before.push(*comm)) == unshifted_steps(before).push(
            unshifted_step(*comm),
        ));
    }
}

/// Feeds the pieces of a commitment to a sponge that has taken those of
/// `before`, if there is one.
fn absorb_unshifted_option<EFqSponge: FqSponge>(
    sponge: &mut EFqSponge,
    comm: &Option<PolyComm<Point>>,
    Ghost(before): Ghost<Seq<PolyComm<Point>>>,
)
    requires
        old(sponge).transcript() == unshifted_steps(before),
    ensures
        final(sponge).transcript() == unshifted_steps(before + optional_commitment(*comm)),
{
    match comm {
        Some(c) => {
            absorb_unshifted_one(sponge, c, Ghost(before));
            proof {
                assert(before + optional_commitment(*comm) == before.push(*c));
            }
        },
        None => {
            proof {
                assert(before + optional_commitment(*comm) == before);
            }
        },
    }
}

impl VerifierIndex {
    /// The commitments of the index in the order in which its digest takes
    /// them.
    pub open spec fn commitments(&self) -> Seq<PolyComm<Point>> {
        self.sigma_comm@ + self.coefficients_comm@ + seq![
            self.generic_comm,
            self.psm_comm,
            self.complete_add_comm,
            self.mul_comm,
            self.emul_comm,
            self.endomul_scalar_comm,
        ] + optional_commitment(self.range_check0_comm) + optional_commitment(
            self.range_check1_comm,
        ) + optional_commitment(self.foreign_field_add_comm) + optional_commitment(
            self.foreign_field_mul_comm,
        ) + optional_commitment(self.xor_comm) + optional_commitment(self.rot_comm)
            + lookup_commitments(self.lookup_index)
    }

    /// The steps by which the index enters a sponge.
    pub open spec fn digest_steps(&self) -> Seq<FqSpongeStep> {
        unshifted_steps(self.commitments())
    }

    /// Whether this is the index of the circuit that only exposes its public
    /// input, for the given parameters. The permutation is the identity:
    /// column `i` is committed to as `shift[i] * x`, without blinding. The
    /// generic gate is on in every row and reads its first coefficient, which
    /// is one; every other coefficient and every other gate is the zero
    /// polynomial, committed to with the blinding factor one. No optional part
    /// is in use.
    pub open spec fn is_public_input_only(
        &self,
        srs: SRS,
        domain: Domain,
        num_public_inputs: usize,
        num_prev_challenges: usize,
    ) -> bool {
        &&& self.domain == domain
        &&& self.max_poly_size == srs.g.len()
        &&& self.srs == srs
        &&& self.public == num_public_inputs
        &&& self.prev_challenges == num_prev_challenges
        &&& forall|i: int|
            0 <= i < 7 ==> is_single(
                #[trigger] self.sigma_comm[i],
                pallas_mul(srs.g[1]@, canonical_shifts()[i]),
            )
        &&& is_single(self.coefficients_comm[0], srs.g[0]@)
        &&& forall|i: int| 1 <= i < 15 ==> is_single(#[trigger] self.coefficients_comm[i], srs.h@)
        &&& is_single(self.generic_comm, srs.g[0]@)
        &&& is_single(self.psm_comm, srs.h@)
        &&& is_single(self.complete_add_comm, srs.h@)
        &&& is_single(self.mul_comm, srs.h@)
        &&& is_single(self.emul_comm, srs.h@)
        &&& is_single(self.endomul_scalar_comm, srs.h@)
        &&& self.range_check0_comm is None
        &&& self.range_check1_comm is None
        &&& self.foreign_field_add_comm is None
        &&& self.foreign_field_mul_comm is None
        &&& self.xor_comm is None
        &&& self.rot_comm is None
        &&& scalars_view(self.shift@) == canonical_shifts()
        &&& self.endo@ == scalar_endo_coefficient()
        &&& self.lookup_index is None
        &&& self.feature_flags == no_features()
        &&& self.linearization == (Linearization { generic: true, permutation: true, lookup: false })
        &&& self.powers_of_alpha == (Alphas { gates: GATE_CONSTRAINTS, permutation: CONSTRAINTS })
    }

    /// The digest of the index: what a fresh sponge answers once it has
    /// absorbed every commitment of the index.
    pub fn digest<EFqSponge: FqSponge>(&self) -> (d: crate::field::BaseField)
        ensures
            d@ == EFqSponge::squeeze_fq(self.digest_steps()),
    {
        let mut fq_sponge = EFqSponge::new();
        let ghost empty = Seq::<PolyComm<Point>>::empty();
        proof {
            assert(fq_sponge.transcript() == unshifted_steps(empty));
        }
        absorb_unshifted(&mut fq_sponge, self.sigma_comm.as_slice(), Ghost(empty));
        let ghost sigma = empty + self.sigma_comm@;
        absorb_unshifted(&mut fq_sponge, self.coefficients_comm.as_slice(), Ghost(sigma));
        let ghost c0 = sigma + self.coefficients_comm@;
        absorb_unshifted_one(&mut fq_sponge, &self.generic_comm, Ghost(c0));
        let ghost c1 = c0.push(self.generic_comm);
        absorb_unshifted_one(&mut fq_sponge, &self.psm_comm, Ghost(c1));
        let ghost c2 = c1.push(self.psm_comm);
        absorb_unshifted_one(&mut fq_sponge, &self.complete_add_comm, Ghost(c2));
        let ghost c3 = c2.push(self.complete_add_comm);
        absorb_unshifted_one(&mut fq_sponge, &self.mul_comm, Ghost(c3));
        let ghost c4 = c3.push(self.mul_comm);
        absorb_unshifted_one(&mut fq_sponge, &self.emul_comm, Ghost(c4));
        let ghost c5 = c4.push(self.emul_comm);
        absorb_unshifted_one(&mut fq_sponge, &self.endomul_scalar_comm, Ghost(c5));
        let ghost c6 = c5.push(self.endomul_scalar_comm);
        absorb_unshifted_option(&mut fq_sponge, &self.range_check0_comm, Ghost(c6));
        let ghost g1 = c6 + optional_commitment(self.range_check0_comm);
        absorb_unshifted_option(&mut fq_sponge, &self.range_check1_comm, Ghost(g1));
        let ghost g2 = g1 + optional_commitment(self.range_check1_comm);
        absorb_unshifted_option(&mut fq_sponge, &self.foreign_field_add_comm, Ghost(g2));
        let ghost g3 = g2 + optional_commitment(self.foreign_field_add_comm);
        absorb_unshifted_option(&mut fq_sponge, &self.foreign_field_mul_comm, Ghost(g3));
        let ghost g4 = g3 + optional_commitment(self.foreign_field_mul_comm);
        absorb_unshifted_option(&mut fq_sponge, &self.xor_comm, Ghost(g4));
        let ghost g5 = g4 + optional_commitment(self.xor_comm);
        absorb_unshifted_option(&mut fq_sponge, &self.rot_comm, Ghost(g5));
        let ghost g6 = g5 + optional_commitment(self.rot_comm);
        proof {
            assert(c6 == self.sigma_comm@ + self.coefficients_comm@ + seq![
                self.generic_comm,
                self.psm_comm,
                self.complete_add_comm,
                self.mul_comm,
                self.emul_comm,
                self.endomul_scalar_comm,
            ]);
        }
        match &self.lookup_index {
            Some(lookup) => {
                absorb_unshifted(&mut fq_sponge, lookup.lookup_table.as_slice(), Ghost(g6));
                let ghost l1 = g6 + lookup.lookup_table@;
                absorb_unshifted_option(&mut fq_sponge, &lookup.table_ids, Ghost(l1));
                let ghost l2 = l1 + optional_commitment(lookup.table_ids);
                absorb_unshifted_option(&mut fq_sponge, &lookup.runtime_tables_selector, Ghost(l2));
                proof {
                    assert(l2 + optional_commitment(lookup.runtime_tables_selector) == g6
                        + lookup_commitments(self.lookup_index));
                }
            },
            None => {
                proof {
                    assert(g6 + lookup_commitments(self.lookup_index) == g6);
                }
            },
        }
        fq_sponge.digest_fq()
    }
}

/// The flags of a circuit that uses no optional part.
pub open spec fn no_features() -> FeatureFlags {
    FeatureFlags {
        range_check0: false,
        range_check1: false,
        lookup_features: LookupFeatures {
            patterns: LookupPatterns {
                xor: false,
                lookup: false,
                range_check: false,
                foreign_field_mul: false,
            },
            joint_lookup_used: false,
            uses_runtime_tables: false,
        },
        foreign_field_add: false,
        foreign_field_mul: false,
        xor: false,
        rot: false,
    }
}

/// Builds the index of the circuit that only exposes its public input. The
/// parameters must hold two generators, the domain must have room for the rows
/// that are left to blinding, and the shifts must lie in different cosets of
/// the domain.
pub fn verifier_index(
    srs: SRS,
    domain: Domain,
    num_public_inputs: usize,
    num_prev_challenges: usize,
) -> (r: Result<VerifierIndex, ConfigurationError>)
    ensures
        r is Ok <==> srs.g.len() >= 2 && domain.spec_size() >= ZK_ROWS && cosets_distinct(
            canonical_shifts(),
            domain.spec_size(),
        ),
        r matches Err(e) ==> e == (if srs.g.len() < 2 {
            ConfigurationError::SRSTooSmall
        } else if domain.spec_size() < ZK_ROWS {
            ConfigurationError::DomainTooSmall
        } else {
            ConfigurationError::ShiftsCollide
        }),
        r matches Ok(index) ==> index.is_public_input_only(
            srs,
            domain,
            num_public_inputs,
            num_prev_challenges,
        ),
{
    if srs.g.len() < 2 {
        return Err(ConfigurationError::SRSTooSmall);
    }
    if domain.size() < ZK_ROWS {
        return Err(ConfigurationError::DomainTooSmall);
    }
    let shifts = match Shifts::new(&domain) {
        Some(shifts) => shifts,
        None => {
            return Err(ConfigurationError::ShiftsCollide);
        },
    };
    let endo_q = endo_coefficient();
    let feature_flags = FeatureFlags {
        range_check0: false,
        range_check1: false,
        lookup_features: LookupFeatures {
            patterns: LookupPatterns {
                xor: false,
                lookup: false,
                range_check: false,
                foreign_field_mul: false,
            },
            joint_lookup_used: false,
            uses_runtime_tables: false,
        },
        foreign_field_add: false,
        foreign_field_mul: false,
        xor: false,
        rot: false,
    };
    let powers_of_alpha = Alphas { gates: GATE_CONSTRAINTS, permutation: CONSTRAINTS };
    let one = srs.g[0];
    let x = srs.g[1];
    let h = srs.h;
    let max_poly_size = srs.g.len();
    let index = VerifierIndex {
        domain,
        max_poly_size,
        srs,
        public: num_public_inputs,
        prev_challenges: num_prev_challenges,
        sigma_comm: [
            PolyComm::single(x.mul(&shifts.shifts[0])),
            PolyComm::single(x.mul(&shifts.shifts[1])),
            PolyComm::single(x.mul(&shifts.shifts[2])),
            PolyComm::single(x.mul(&shifts.shifts[3])),
            PolyComm::single(x.mul(&shifts.shifts[4])),
            PolyComm::single(x.mul(&shifts.shifts[5])),
            PolyComm::single(x.mul(&shifts.shifts[6])),
        ],
        coefficients_comm: [
            PolyComm::single(one),
            PolyComm::single(h),
            PolyComm::single(h),
            PolyComm::single(h),
            PolyComm::single(h),
            PolyComm::single(h),
            PolyComm::single(h),
            PolyComm::single(h),
            PolyComm::single(h),
            PolyComm::single(h),
            PolyComm::single(h),
            PolyComm::single(h),
            PolyComm::single(h),
            PolyComm::single(h),
            PolyComm::single(h),
        ],
        generic_comm: PolyComm::single(one),
        psm_comm: PolyComm::single(h),
        complete_add_comm: PolyComm::single(h),
        mul_comm: PolyComm::single(h),
        emul_comm: PolyComm::single(h),
        endomul_scalar_comm: PolyComm::single(h),
        range_check0_comm: None,
        range_check1_comm: None,
        foreign_field_add_comm: None,
        foreign_field_mul_comm: None,
        xor_comm: None,
        rot_comm: None,
        shift: shifts.shifts,
        endo: endo_q,
        lookup_index: None,
        feature_flags,
        linearization: Linearization { generic: true, permutation: true, lookup: false },
        powers_of_alpha,
    };
    proof {
        assert forall|i: int| 0 <= i < 7 implies is_single(
            #[trigger] index.sigma_comm[i],
            pallas_mul(srs.g[1]@, canonical_shifts()[i]),
        ) by {
            assert(shifts.shifts[i]@ == scalars_view(shifts.shifts@)[i]);
            assert(points_view(index.sigma_comm[i].unshifted@) =~= seq![
                pallas_mul(srs.g[1]@, canonical_shifts()[i]),
            ]);
        }
        assert forall|i: int| 1 <= i < 15 implies is_single(
            #[trigger] index.coefficients_comm[i],
            srs.h@,
        ) by {
            assert(points_view(index.coefficients_comm[i].unshifted@) =~= seq![srs.h@]);
        }
        assert(points_view(index.coefficients_comm[0].unshifted@) =~= seq![srs.g[0]@]);
        assert(points_view(index.generic_comm.unshifted@) =~= seq![srs.g[0]@]);
        assert(points_view(index.psm_comm.unshifted@) =~= seq![srs.h@]);
        assert(points_view(index.complete_add_comm.unshifted@) =~= seq![srs.h@]);
        assert(points_view(index.mul_comm.unshifted@) =~= seq![srs.h@]);
        assert(points_view(index.emul_comm.unshifted@) =~= seq![srs.h@]);
        assert(points_view(index.endomul_scalar_comm.unshifted@) =~= seq![srs.h@]);
    }
    Ok(index)
}

} // verus!
