//! The fixed tables of the lookup argument that checks the ranges of the
//! limbs of a foreign-field element, and the check that the multiplicities of
//! a table add up to the number of lookups into it.

use crate::domain::Domain;
use crate::field::{fadd, fsub, limbs_value, scalar_modulus, ForeignField, ScalarField};
use crate::sponge::scalars_view;
use core::marker::PhantomData;
use vstd::arithmetic::div_mod::{lemma_div_denominator, lemma_fundamental_div_mod_converse};
use vstd::arithmetic::power2::{lemma2_to64, lemma2_to64_rest, lemma_pow2_adds, pow2};
use vstd::bits::lemma_u64_shr_is_div;
use vstd::prelude::*;

verus! {

/// The number of limbs of 15 bits of a foreign-field element.
pub const N_LIMBS: usize = 17;

/// The number of bits of a limb.
pub const LIMB_BITSIZE: usize = 15;

/// The number of intermediate limbs of 4 bits that the circuit needs.
pub const N_INTERMEDIATE_LIMBS: usize = 20;

/// What identifies a lookup table.
pub trait LookupTableID: Sized {
    /// The number of the table.
    open spec fn spec_to_u32(&self) -> u32 {
        arbitrary()
    }

    /// Whether a number is that of a table.
    open spec fn is_id(value: u32) -> bool {
        arbitrary()
    }

    /// The number of entries of the table.
    open spec fn spec_length(&self) -> nat {
        arbitrary()
    }

    /// The number of the table.
    fn to_u32(&self) -> (r: u32)
        ensures
            r == self.spec_to_u32(),
            Self::is_id(r),
    ;

    /// The table with the given number.
    fn from_u32(value: u32) -> (r: Self)
        requires
            Self::is_id(value),
        ensures
            r.spec_to_u32() == value,
    ;

    /// Whether the entries of the table are known before any witness is.
    fn is_fixed(&self) -> bool;

    /// The number of entries of the table.
    fn length(&self) -> (r: usize)
        ensures
            r == self.spec_length(),
    ;
}

/// The tables against which the limbs of an element of the foreign field
/// `Ff` are checked.
#[derive(Debug, Hash, Eq, PartialEq, Ord, PartialOrd)]
pub enum LookupTable<Ff> {
    /// The integers of 15 bits.
    RangeCheck15,
    /// The integers of 4 bits.
    RangeCheck4,
    /// The integers of 4 bits and their opposites: from -16 to 15.
    RangeCheck4Abs,
    /// The integers below the highest limb of the order of the foreign field.
    RangeCheckFfHighest(PhantomData<Ff>),
}

impl<Ff> Clone for LookupTable<Ff> {
    fn clone(&self) -> (r: Self)
        ensures
            r == *self,
    {
        match self {
            Self::RangeCheck15 => Self::RangeCheck15,
            Self::RangeCheck4 => Self::RangeCheck4,
            Self::RangeCheck4Abs => Self::RangeCheck4Abs,
            Self::RangeCheckFfHighest(_) => Self::RangeCheckFfHighest(PhantomData),
        }
    }
}

impl<Ff> Copy for LookupTable<Ff> {

}

/// The highest limb of `modulus`, that is what lies above its 16 low limbs of
/// 15 bits.
pub open spec fn highest_limb(modulus: nat) -> nat {
    modulus / pow2(240)
}

/// The highest limb of a number of four 64-bit limbs lies in the last of
/// them.
proof fn lemma_highest_limb(l0: u64, l1: u64, l2: u64, l3: u64)
    ensures
        highest_limb(limbs_value(l0, l1, l2, l3)) == l3 as nat / pow2(48),
        l3 as nat / pow2(48) < 0x1_0000,
{
    let w: int = 0x1_0000_0000_0000_0000;
    let v = limbs_value(l0, l1, l2, l3) as int;
    let low: int = l0 + l1 * 0x1_0000_0000_0000_0000 + l2
        * 0x1_0000_0000_0000_0000_0000_0000_0000_0000;
    lemma2_to64();
    lemma2_to64_rest();
    lemma_pow2_adds(64, 64);
    lemma_pow2_adds(128, 64);
    lemma_pow2_adds(192, 48);
    assert(pow2(192) == 0x1_0000_0000_0000_0000_0000_0000_0000_0000_0000_0000_0000_0000);
    lemma_fundamental_div_mod_converse(v, pow2(192) as int, l3 as int, low);
    lemma_div_denominator(v, pow2(192) as int, pow2(48) as int);
    assert(pow2(192) * pow2(48) == pow2(240));
}

/// The highest limb of the order of the field `Ff`.
pub fn ff_modulus_highest_limb<Ff: ForeignField>() -> (r: u64)
    ensures
        r == highest_limb(Ff::modulus()),
        r < 0x1_0000,
{
    let limbs = Ff::modulus_limbs();
    proof {
        lemma_highest_limb(limbs[0], limbs[1], limbs[2], limbs[3]);
        lemma_u64_shr_is_div(limbs[3], 48);
    }
    limbs[3] >> 48
}

impl<Ff: ForeignField> LookupTableID for LookupTable<Ff> {
    open spec fn spec_to_u32(&self) -> u32 {
        match self {
            Self::RangeCheck15 => 1,
            Self::RangeCheck4 => 2,
            Self::RangeCheck4Abs => 3,
            Self::RangeCheckFfHighest(_) => 4,
        }
    }

    open spec fn is_id(value: u32) -> bool {
        1 <= value <= 4
    }

    open spec fn spec_length(&self) -> nat {
        match self {
            Self::RangeCheck15 => 0x8000,
            Self::RangeCheck4 => 16,
            Self::RangeCheck4Abs => 32,
            Self::RangeCheckFfHighest(_) => highest_limb(Ff::modulus()),
        }
    }

    fn to_u32(&self) -> (r: u32) {
        match self {
            Self::RangeCheck15 => 1,
            Self::RangeCheck4 => 2,
            Self::RangeCheck4Abs => 3,
            Self::RangeCheckFfHighest(_) => 4,
        }
    }

    fn from_u32(value: u32) -> (r: Self) {
        if value == 1 {
            Self::RangeCheck15
        } else if value == 2 {
            Self::RangeCheck4
        } else if value == 3 {
            Self::RangeCheck4Abs
        } else {
            Self::RangeCheckFfHighest(PhantomData)
        }
    }

    /// All tables are fixed tables.
    fn is_fixed(&self) -> (r: bool)
        ensures
            r,
    {
        true
    }

    fn length(&self) -> (r: usize) {
        match self {
            Self::RangeCheck15 => 0x8000,
            Self::RangeCheck4 => 16,
            Self::RangeCheck4Abs => 32,
            Self::RangeCheckFfHighest(_) => ff_modulus_highest_limb::<Ff>() as usize,
        }
    }
}

impl<Ff: ForeignField> LookupTable<Ff> {
    /// The table with the given number, if there is one.
    pub fn checked_from_u32(value: u32) -> (r: Option<Self>)
        ensures
            r is Some <==> 1 <= value <= 4,
            r matches Some(t) ==> t.spec_to_u32() == value,
    {
        if 1 <= value && value <= 4 {
            Some(Self::from_u32(value))
        } else {
            None
        }
    }

    /// Entry `i` of the table, as an element of the scalar field. The tables
    /// of a range count up from zero. The table of the 4-bit integers and
    /// their opposites counts from 0 to 15 and then from -16 to -1.
    pub open spec fn entry(&self, i: nat) -> nat {
        match self {
            Self::RangeCheck4Abs => if i < 16 {
                i
            } else {
                fsub(i, 32)
            },
            _ => i,
        }
    }

    /// Row `i` of the column that holds the table on a domain: the entries of
    /// the table, then zeros.
    pub open spec fn row(&self, i: nat) -> nat {
        if i < self.spec_length() {
            self.entry(i)
        } else {
            0
        }
    }

    /// The column that holds the table on a domain, which must have room for
    /// it.
    pub fn entries(&self, domain: &Domain) -> (r: Vec<ScalarField>)
        requires
            domain.spec_size() >= self.spec_length(),
        ensures
            r.len() == domain.spec_size(),
            forall|i: int| 0 <= i < r.len() ==> (#[trigger] r[i])@ == self.row(i as nat),
    {
        let size = domain.size();
        let length = self.length() as u64;
        let mut r: Vec<ScalarField> = Vec::new();
        let mut i: u64 = 0;
        while i < size
            invariant
                i <= size,
                r.len() == i,
                length == self.spec_length(),
                forall|j: int| 0 <= j < r.len() ==> (#[trigger] r[j])@ == self.row(j as nat),
            decreases size - i,
        {
            let x = if i < length {
                match self {
                    Self::RangeCheck4Abs => if i < 16 {
                        ScalarField::from_u64(i)
                    } else {
                        ScalarField::from_u64(i).sub(&ScalarField::from_u64(32))
                    },
                    _ => ScalarField::from_u64(i),
                }
            } else {
                ScalarField::zero()
            };
            r.push(x);
            i += 1;
        }
        r
    }

    /// No table holds an entry twice, and a table of a range holds every
    /// integer of its range: the 15-bit table those below `2^15`, the 4-bit
    /// table those below 16, the table of the highest limb those below the
    /// highest limb of the order of the foreign field.
    pub proof fn lemma_table_complete(self, i: nat, j: nat)
        requires
            i < self.spec_length(),
            j < self.spec_length(),
        ensures
            self.entry(i) == self.entry(j) ==> i == j,
            !(self is RangeCheck4Abs) ==> self.entry(i) == i,
    {
    }
}

/// A lookup: the table it goes to, its numerator in the sum that the argument
/// checks, and the values that are looked up. The numerator is one where a
/// witness asks for the values, and minus the multiplicity on the row of the
/// table itself.
#[derive(Clone, Debug, PartialEq, Eq)]
pub struct Lookup<ID> {
    pub table_id: ID,
    pub numerator: ScalarField,
    pub value: Vec<ScalarField>,
}

/// The lookups into one table: the columns of `f`, of which the last is the
/// table itself and the others hold what the witness asks for, and the
/// multiplicities `m` of the entries of the table.
#[derive(Clone, Debug, PartialEq, Eq)]
pub struct MVLookupWitness<ID> {
    pub f: Vec<Vec<Lookup<ID>>>,
    pub m: Vec<ScalarField>,
}

/// A witness under which the argument would be unsound.
#[derive(Clone, Copy, Debug, PartialEq, Eq)]
pub enum SoundnessInvariantViolation {
    /// The multiplicities of the table with this number do not add up to the
    /// number of lookups into it.
    MultiplicityMismatch { table_id: u32 },
}

/// The sum of field elements.
pub open spec fn field_sum(m: Seq<nat>) -> nat
    decreases m.len(),
{
    if m.len() == 0 {
        0
    } else {
        fadd(field_sum(m.drop_last()), m.last())
    }
}

/// The number of lookups of a column that go to the table with the number
/// `id`.
pub open spec fn requests_in_column<ID: LookupTableID>(column: Seq<Lookup<ID>>, id: u32) -> nat
    decreases column.len(),
{
    if column.len() == 0 {
        0
    } else {
        requests_in_column(column.drop_last(), id) + if column.last().table_id.spec_to_u32()
            == id {
            1nat
        } else {
            0nat
        }
    }
}

/// The number of lookups of the given columns that go to the table with the
/// number `id`.
pub open spec fn requests<ID: LookupTableID>(columns: Seq<Vec<Lookup<ID>>>, id: u32) -> nat
    decreases columns.len(),
{
    if columns.len() == 0 {
        0
    } else {
        requests(columns.drop_last(), id) + requests_in_column(columns.last()@, id)
    }
}

impl<ID: LookupTableID> MVLookupWitness<ID> {
    /// The columns that hold what the witness asks for: all but the last.
    pub open spec fn request_columns(&self) -> Seq<Vec<Lookup<ID>>> {
        if self.f.len() == 0 {
            self.f@
        } else {
            self.f@.drop_last()
        }
    }

    /// Whether the multiplicities add up, in the field, to the number of
    /// lookups into the table.
    pub open spec fn multiplicities_add_up(&self, table_id: u32) -> bool {
        field_sum(scalars_view(self.m@)) == requests(self.request_columns(), table_id)
            % scalar_modulus()
    }

    /// Checks that the multiplicities of the table add up to the number of
    /// lookups into it, without which no sound proof can be made.
    pub fn check_multiplicities(&self, table_id: &ID) -> (r: Result<
        (),
        SoundnessInvariantViolation,
    >)
        ensures
            r is Ok <==> self.multiplicities_add_up(table_id.spec_to_u32()),
            r matches Err(e) ==> e == (SoundnessInvariantViolation::MultiplicityMismatch {
                table_id: table_id.spec_to_u32(),
            }),
    {
        let id = table_id.to_u32();
        let one = ScalarField::one();
        let mut total = ScalarField::zero();
        let mut i: usize = 0;
        proof {
            assert(scalars_view(self.m@).take(0) =~= Seq::<nat>::empty());
        }
        while i < self.m.len()
            invariant
                i <= self.m.len(),
                total@ == field_sum(scalars_view(self.m@).take(i as int)),
            decreases self.m.len() - i,
        {
            proof {
                let next = scalars_view(self.m@).take(i + 1);
                assert(next.drop_last() =~= scalars_view(self.m@).take(i as int));
                assert(next.last() == self.m[i as int]@);
            }
            total = total.add(&self.m[i]);
            i += 1;
        }
        proof {
            assert(scalars_view(self.m@).take(self.m.len() as int) =~= scalars_view(self.m@));
        }
        let columns = if self.f.len() == 0 {
            0
        } else {
            self.f.len() - 1
        };
        let ghost asked = self.request_columns();
        let mut count = ScalarField::zero();
        let mut c: usize = 0;
        proof {
            assert(asked.take(0) =~= Seq::<Vec<Lookup<ID>>>::empty());
            vstd::arithmetic::div_mod::lemma_small_mod(0, scalar_modulus());
        }
        while c < columns
            invariant
                c <= columns,
                columns == asked.len(),
                asked == self.request_columns(),
                one@ == 1,
                id == table_id.spec_to_u32(),
                count@ == requests(asked.take(c as int), id) % scalar_modulus(),
            decreases columns - c,
        {
            let column = &self.f[c];
            let ghost before = requests(asked.take(c as int), id);
            let mut k: usize = 0;
            proof {
                assert(column@.take(0) =~= Seq::<Lookup<ID>>::empty());
            }
            while k < column.len()
                invariant
                    k <= column.len(),
                    one@ == 1,
                    id == table_id.spec_to_u32(),
                    count@ == (before + requests_in_column(column@.take(k as int), id))
                        % scalar_modulus(),
                decreases column.len() - k,
            {
                proof {
                    let next = column@.take(k + 1);
                    assert(next.drop_last() =~= column@.take(k as int));
                    assert(next.last() == column[k as int]);
                }
                if column[k].table_id.to_u32() == id {
                    proof {
                        vstd::arithmetic::div_mod::lemma_add_mod_noop(
                            (before + requests_in_column(column@.take(k as int), id)) as int,
                            1,
                            scalar_modulus() as int,
                        );
                        vstd::arithmetic::div_mod::lemma_small_mod(1, scalar_modulus());
                    }
                    count = count.add(&one);
                }
                k += 1;
            }
            proof {
                assert(column@.take(column.len() as int) =~= column@);
                let next = asked.take(c + 1);
                assert(next.drop_last() =~= asked.take(c as int));
                assert(next.last() == asked[c as int]);
                assert(asked[c as int] == self.f[c as int]);
            }
            c += 1;
        }
        proof {
            assert(asked.take(columns as int) =~= asked);
        }
        if total.equals(&count) {
            Ok(())
        } else {
            Err(SoundnessInvariantViolation::MultiplicityMismatch { table_id: id })
        }
    }
}

/// The number of times that `row` occurs among `rows`.
pub open spec fn occurrences(rows: Seq<usize>, row: int) -> nat
    decreases rows.len(),
{
    if rows.len() == 0 {
        0
    } else {
        occurrences(rows.drop_last(), row) + if rows.last() == row {
            1nat
        } else {
            0nat
        }
    }
}

/// The sum of multiplicities.
pub open spec fn total(m: Seq<u64>) -> nat
    decreases m.len(),
{
    if m.len() == 0 {
        0
    } else {
        total(m.drop_last()) + m.last() as nat
    }
}

/// No multiplicity is above the sum of all, and one more at one row is one
/// more in all.
proof fn lemma_total_update(m: Seq<u64>, i: int, v: u64)
    requires
        0 <= i < m.len(),
    ensures
        m[i] <= total(m),
        total(m.update(i, v)) == total(m) - m[i] + v,
    decreases m.len(),
{
    let last = m.len() - 1;
    if i == last {
        assert(m.update(i, v).drop_last() =~= m.drop_last());
    } else {
        lemma_total_update(m.drop_last(), i, v);
        assert(m.update(i, v).drop_last() =~= m.drop_last().update(i, v));
    }
}

/// Tallies how often each row of a table of `length` rows is asked for:
/// `rows` holds, for each lookup, the row of the table that it asks for. A
/// lookup of what is not in the table has no row, and no tally is made. The
/// multiplicities of a tally add up to the number of lookups.
pub fn tally_multiplicities(length: usize, rows: &[usize]) -> (r: Option<Vec<u64>>)
    ensures
        r is Some <==> forall|k: int| 0 <= k < rows.len() ==> (#[trigger] rows[k]) < length,
        r matches Some(m) ==> {
            &&& m.len() == length
            &&& forall|i: int| 0 <= i < length ==> (#[trigger] m[i]) == occurrences(rows@, i)
            &&& total(m@) == rows.len()
        },
{
    let mut m: Vec<u64> = Vec::new();
    while m.len() < length
        invariant
            m.len() <= length,
            forall|i: int| 0 <= i < m.len() ==> (#[trigger] m[i]) == 0,
            total(m@) == 0,
        decreases length - m.len(),
    {
        proof {
            assert(m@.push(0).drop_last() =~= m@);
        }
        m.push(0);
    }
    let mut k: usize = 0;
    proof {
        assert(rows@.take(0) =~= Seq::<usize>::empty());
    }
    while k < rows.len()
        invariant
            k <= rows.len(),
            m.len() == length,
            forall|j: int| 0 <= j < k ==> (#[trigger] rows[j]) < length,
            forall|i: int| 0 <= i < length ==> (#[trigger] m[i]) == occurrences(
                rows@.take(k as int),
                i,
            ),
            total(m@) == k,
        decreases rows.len() - k,
    {
        let row = rows[k];
        if row >= length {
            return None;
        }
        proof {
            lemma_total_update(m@, row as int, (m[row as int] + 1) as u64);
            let next = rows@.take(k + 1);
            assert(next.drop_last() =~= rows@.take(k as int));
            assert(next.last() == row);
        }
        let count = m[row] + 1;
        m.set(row, count);
        k += 1;
    }
    proof {
        assert(rows@.take(rows.len() as int) =~= rows@);
    }
    Some(m)
}

/// The multiplicities of a tally as field elements.
pub fn multiplicities_in_the_field(m: &Vec<u64>) -> (r: Vec<ScalarField>)
    ensures
        r.len() == m.len(),
        forall|i: int| 0 <= i < m.len() ==> (#[trigger] r[i])@ == m[i],
        field_sum(scalars_view(r@)) == total(m@) % scalar_modulus(),
{
    let mut r: Vec<ScalarField> = Vec::new();
    proof {
        assert(scalars_view(r@) =~= Seq::<nat>::empty());
        assert(m@.take(0) =~= Seq::<u64>::empty());
        vstd::arithmetic::div_mod::lemma_small_mod(0, scalar_modulus());
    }
    while r.len() < m.len()
        invariant
            r.len() <= m.len(),
            forall|i: int| 0 <= i < r.len() ==> (#[trigger] r[i])@ == m[i],
            field_sum(scalars_view(r@)) == total(m@.take(r.len() as int)) % scalar_modulus(),
        decreases m.len() - r.len(),
    {
        let x = ScalarField::from_u64(m[r.len()]);
        proof {
            let k = r.len() as int;
            assert(m@.take(k + 1).drop_last() =~= m@.take(k));
            assert(m@.take(k + 1).last() == m[k]);
            assert(scalars_view(r@.push(x)).drop_last() =~= scalars_view(r@));
            assert(scalars_view(r@.push(x)).last() == m[k]);
            vstd::arithmetic::div_mod::lemma_add_mod_noop_right(
                m[k] as int,
                total(m@.take(k)) as int,
                scalar_modulus() as int,
            );
        }
        r.push(x);
    }
    proof {
        assert(m@.take(m.len() as int) =~= m@);
    }
    r
}

/// The multiplicities of a table add up to the number of lookups into it
/// wherever they are a tally of these lookups: a witness that holds the
/// tally of its own lookups passes the check.
pub proof fn lemma_tally_adds_up<ID: LookupTableID>(
    witness: MVLookupWitness<ID>,
    table_id: u32,
    tally: Seq<u64>,
)
    requires
        field_sum(scalars_view(witness.m@)) == total(tally) % scalar_modulus(),
        total(tally) == requests(witness.request_columns(), table_id),
    ensures
        witness.multiplicities_add_up(table_id),
{
}

} // verus!
