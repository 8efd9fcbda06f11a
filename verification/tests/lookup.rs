use public_input_prover::domain::Domain;
use public_input_prover::field::{BaseField, ScalarField};
use public_input_prover::lookup::{
    ff_modulus_highest_limb, multiplicities_in_the_field, tally_multiplicities, Lookup,
    LookupTable, LookupTableID, MVLookupWitness, SoundnessInvariantViolation,
    N_INTERMEDIATE_LIMBS,
};

type Table = LookupTable<BaseField>;

fn all_tables() -> Vec<Table> {
    (1..=4).map(Table::from_u32).collect()
}

#[test]
fn numbers_of_the_tables() {
    assert_eq!(Table::RangeCheck15.to_u32(), 1);
    assert_eq!(Table::RangeCheck4.to_u32(), 2);
    assert_eq!(Table::RangeCheck4Abs.to_u32(), 3);
    assert_eq!(Table::from_u32(4).to_u32(), 4);
    assert_eq!(Table::from_u32(1), Table::RangeCheck15);
    assert_eq!(Table::from_u32(2), Table::RangeCheck4);
    assert_eq!(Table::from_u32(3), Table::RangeCheck4Abs);
    for t in all_tables() {
        assert_eq!(Table::from_u32(t.to_u32()), t);
        assert!(t.is_fixed());
    }
    assert_eq!(N_INTERMEDIATE_LIMBS, 20);
}

#[test]
fn a_number_that_is_no_table() {
    assert_eq!(Table::checked_from_u32(0), None);
    assert_eq!(Table::checked_from_u32(5), None);
    assert_eq!(Table::checked_from_u32(u32::MAX), None);
    for id in 1..=4 {
        assert_eq!(Table::checked_from_u32(id), Some(Table::from_u32(id)));
    }
}

#[test]
fn lengths_of_the_tables() {
    assert_eq!(Table::RangeCheck15.length(), 1 << 15);
    assert_eq!(Table::RangeCheck4.length(), 1 << 4);
    assert_eq!(Table::RangeCheck4Abs.length(), 1 << 5);
    assert_eq!(Table::from_u32(4).length(), 0x4000);
    assert_eq!(ff_modulus_highest_limb::<BaseField>(), 0x4000);
    assert_eq!(ff_modulus_highest_limb::<ScalarField>(), 0x4000);
    assert_eq!(LookupTable::<ScalarField>::from_u32(4).length(), 0x4000);
}

#[test]
fn the_15_bit_table_holds_each_integer_once() {
    let d = Domain::new(1 << 15).unwrap();
    let entries = Table::RangeCheck15.entries(&d);
    assert_eq!(entries.len(), 1 << 15);
    for (i, e) in entries.iter().enumerate() {
        assert_eq!(*e, ScalarField::from_u64(i as u64));
    }
}

#[test]
fn tables_are_padded_with_zeros() {
    let d = Domain::new(1 << 16).unwrap();
    let entries = Table::RangeCheck15.entries(&d);
    assert_eq!(entries.len(), 1 << 16);
    assert_eq!(entries[(1 << 15) - 1], ScalarField::from_u64((1 << 15) - 1));
    assert_eq!(entries[1 << 15], ScalarField::zero());
    assert_eq!(entries[(1 << 16) - 1], ScalarField::zero());
    let four = Table::RangeCheck4.entries(&Domain::new(64).unwrap());
    for i in 0..64u64 {
        let expected = if i < 16 { ScalarField::from_u64(i) } else { ScalarField::zero() };
        assert_eq!(four[i as usize], expected);
    }
}

#[test]
fn the_table_of_the_highest_limb() {
    let d = Domain::new(1 << 15).unwrap();
    let entries = Table::from_u32(4).entries(&d);
    assert_eq!(entries.len(), 1 << 15);
    for i in 0..(1u64 << 15) {
        let expected = if i < 0x4000 { ScalarField::from_u64(i) } else { ScalarField::zero() };
        assert_eq!(entries[i as usize], expected);
    }
}

#[test]
fn the_signed_table_runs_from_minus_sixteen_to_fifteen() {
    let d = Domain::new(64).unwrap();
    let entries = Table::RangeCheck4Abs.entries(&d);
    for i in 0..16u64 {
        assert_eq!(entries[i as usize], ScalarField::from_u64(i));
    }
    for i in 16..32u64 {
        assert_eq!(entries[i as usize], ScalarField::from_u64(32 - i).neg());
    }
    assert_eq!(entries[16], ScalarField::from_u64(16).neg());
    assert_eq!(entries[31], ScalarField::one().neg());
    for i in 32..64usize {
        assert_eq!(entries[i], ScalarField::zero());
    }
    // No entry of the table occurs twice.
    for i in 0..32 {
        for j in (i + 1)..32 {
            assert_ne!(entries[i], entries[j]);
        }
    }
}

#[test]
fn a_bound_that_depends_on_the_row_bounds_nothing() {
    // A bound of the form `i < 2 * (i << 4)` holds of every row but the
    // first, so it cannot end the signed half of the table; the bound
    // `i < 2 * (1 << 4)` does, at row 32.
    for i in 1..(1u64 << 15) {
        assert!(i < 2 * (i << 4));
    }
    assert!(!(0u64 < 2 * (0u64 << 4)));
    let entries = Table::RangeCheck4Abs.entries(&Domain::new(64).unwrap());
    for i in 16..64u64 {
        let within = i < 2 * (1 << 4);
        assert_eq!(!entries[i as usize].is_zero(), within);
    }
}

fn request(id: Table, value: u64) -> Lookup<Table> {
    Lookup { table_id: id, numerator: ScalarField::one(), value: vec![ScalarField::from_u64(value)] }
}

fn table_row(id: Table, multiplicity: u64, value: u64) -> Lookup<Table> {
    Lookup {
        table_id: id,
        numerator: ScalarField::from_u64(multiplicity).neg(),
        value: vec![ScalarField::from_u64(value)],
    }
}

fn witness(multiplicities: [u64; 4]) -> MVLookupWitness<Table> {
    let t = Table::RangeCheck4;
    // Two columns of lookups over four rows, then the table itself.
    let first = vec![request(t, 0), request(t, 1), request(t, 1), request(t, 3)];
    let second = vec![request(t, 3), request(t, 3), request(t, 0), request(t, 1)];
    let table = (0..4).map(|i| table_row(t, multiplicities[i], i as u64)).collect();
    MVLookupWitness {
        f: vec![first, second, table],
        m: multiplicities.iter().map(|m| ScalarField::from_u64(*m)).collect(),
    }
}

#[test]
fn multiplicities_that_add_up() {
    let w = witness([2, 3, 0, 3]);
    assert_eq!(w.check_multiplicities(&Table::RangeCheck4), Ok(()));
}

#[test]
fn multiplicities_that_do_not_add_up_are_refused() {
    let w = witness([2, 3, 0, 2]);
    assert_eq!(
        w.check_multiplicities(&Table::RangeCheck4),
        Err(SoundnessInvariantViolation::MultiplicityMismatch { table_id: 2 })
    );
    let w = witness([2, 3, 1, 3]);
    assert_eq!(
        w.check_multiplicities(&Table::RangeCheck4),
        Err(SoundnessInvariantViolation::MultiplicityMismatch { table_id: 2 })
    );
}

#[test]
fn only_lookups_into_the_table_count() {
    let w = witness([2, 3, 0, 3]);
    // None of the lookups goes to the 15-bit table.
    assert_eq!(
        w.check_multiplicities(&Table::RangeCheck15),
        Err(SoundnessInvariantViolation::MultiplicityMismatch { table_id: 1 })
    );
    let none = witness([0, 0, 0, 0]);
    assert_eq!(none.check_multiplicities(&Table::RangeCheck15), Ok(()));
}

#[test]
fn a_witness_without_columns() {
    let empty: MVLookupWitness<Table> = MVLookupWitness { f: Vec::new(), m: Vec::new() };
    assert_eq!(empty.check_multiplicities(&Table::RangeCheck4), Ok(()));
    let only_table: MVLookupWitness<Table> = MVLookupWitness {
        f: vec![vec![table_row(Table::RangeCheck4, 1, 0)]],
        m: vec![ScalarField::one()],
    };
    assert_eq!(
        only_table.check_multiplicities(&Table::RangeCheck4),
        Err(SoundnessInvariantViolation::MultiplicityMismatch { table_id: 2 })
    );
}

#[test]
fn a_tally_counts_each_row() {
    assert_eq!(tally_multiplicities(4, &[0, 1, 1, 3, 3, 3, 0, 1]), Some(vec![2, 3, 0, 3]));
    assert_eq!(tally_multiplicities(4, &[]), Some(vec![0, 0, 0, 0]));
    assert_eq!(tally_multiplicities(0, &[]), Some(Vec::new()));
    assert_eq!(tally_multiplicities(1, &[0, 0, 0]), Some(vec![3]));
}

#[test]
fn a_lookup_of_what_is_not_in_the_table_has_no_tally() {
    assert_eq!(tally_multiplicities(4, &[0, 4]), None);
    assert_eq!(tally_multiplicities(0, &[0]), None);
    assert_eq!(tally_multiplicities(4, &[usize::MAX]), None);
}

#[test]
fn a_tally_of_the_lookups_passes_the_check() {
    let t = Table::RangeCheck4;
    let asked = [0usize, 1, 1, 3, 3, 3, 0, 1];
    let tally = tally_multiplicities(t.length(), &asked).unwrap();
    assert_eq!(tally.iter().sum::<u64>(), asked.len() as u64);
    let m = multiplicities_in_the_field(&tally);
    assert_eq!(m.len(), 16);
    assert_eq!(m[1], ScalarField::from_u64(3));
    assert_eq!(m[2], ScalarField::zero());
    let column = asked.iter().map(|row| request(t, *row as u64)).collect();
    let table = (0..16).map(|i| table_row(t, tally[i], i as u64)).collect();
    let w = MVLookupWitness { f: vec![column, table], m };
    assert_eq!(w.check_multiplicities(&t), Ok(()));
    // One lookup more than was tallied is told.
    let mut more = w.clone();
    more.f[0].push(request(t, 2));
    assert_eq!(
        more.check_multiplicities(&t),
        Err(SoundnessInvariantViolation::MultiplicityMismatch { table_id: 2 })
    );
}
