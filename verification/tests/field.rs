use public_input_prover::field::{BaseField, ForeignField, ScalarField};

const Q_MINUS_ONE: [u64; 4] = [0x8c46eb2100000000, 0x224698fc0994a8dd, 0, 0x4000000000000000];
const Q: [u64; 4] = [0x8c46eb2100000001, 0x224698fc0994a8dd, 0, 0x4000000000000000];
const P: [u64; 4] = [0x992d30ed00000001, 0x224698fc094cf91b, 0, 0x4000000000000000];

#[test]
fn scalar_addition_of_small_numbers() {
    let a = ScalarField::from_u64(5);
    let b = ScalarField::from_u64(7);
    assert_eq!(a.add(&b), ScalarField::from_u64(12));
}

#[test]
fn scalar_addition_wraps_around_the_order() {
    let minus_one = ScalarField::from_limbs(Q_MINUS_ONE).unwrap();
    assert_eq!(minus_one.add(&ScalarField::from_u64(3)), ScalarField::from_u64(2));
}

#[test]
fn scalar_negation_wraps_around_the_order() {
    let a = ScalarField::from_u64(1);
    let minus_one = a.neg();
    assert_eq!(minus_one.to_limbs(), Q_MINUS_ONE);
    assert_eq!(minus_one.add(&a), ScalarField::zero());
    assert_eq!(ScalarField::zero().neg(), ScalarField::zero());
}

#[test]
fn scalar_subtraction_below_zero() {
    let a = ScalarField::from_u64(3);
    let b = ScalarField::from_u64(4);
    assert_eq!(a.sub(&b).to_limbs(), Q_MINUS_ONE);
    assert_eq!(b.sub(&a), ScalarField::one());
}

#[test]
fn scalar_multiplication() {
    let a = ScalarField::from_u64(3);
    let b = ScalarField::from_u64(5);
    assert_eq!(a.mul(&b), ScalarField::from_u64(15));
    let minus_one = ScalarField::from_limbs(Q_MINUS_ONE).unwrap();
    let minus_two = minus_one.sub(&ScalarField::one());
    assert_eq!(minus_one.mul(&minus_two), ScalarField::from_u64(2));
}

#[test]
fn scalar_powers() {
    let seven = ScalarField::from_u64(7);
    assert_eq!(seven.pow(10), ScalarField::from_u64(0x10d63af1));
    assert_eq!(seven.pow(0), ScalarField::one());
    assert_eq!(seven.pow(1), seven);
    let two = ScalarField::from_u64(2);
    assert_eq!(two.pow(200).to_limbs(), [0, 0, 0, 0x100]);
    assert_eq!(two.pow_limbs(&[200, 0, 0, 0]).to_limbs(), [0, 0, 0, 0x100]);
    // Fermat: a^(q-1) = 1.
    assert_eq!(seven.pow_limbs(&Q_MINUS_ONE), ScalarField::one());
}

#[test]
fn limbs_at_or_above_the_order_are_refused() {
    assert!(ScalarField::from_limbs(Q).is_none());
    assert!(ScalarField::from_limbs([0, 0, 0, 0x4000000000000001]).is_none());
    assert!(ScalarField::from_limbs([u64::MAX; 4]).is_none());
    assert!(ScalarField::from_limbs(Q_MINUS_ONE).is_some());
    assert!(BaseField::from_limbs(P).is_none());
    // The order of the scalar field is above that of the base field.
    assert!(BaseField::from_limbs(Q_MINUS_ONE).is_none());
    assert!(ScalarField::from_limbs([0x992d30ed00000000, 0x224698fc094cf91b, 0, 0x4000000000000000])
        .is_some());
}

#[test]
fn limbs_round_trip() {
    let limbs = [1, 2, 3, 4];
    assert_eq!(ScalarField::from_limbs(limbs).unwrap().to_limbs(), limbs);
    assert_eq!(BaseField::from_limbs(limbs).unwrap().to_limbs(), limbs);
    assert_eq!(ScalarField::from_u64(9).to_limbs(), [9, 0, 0, 0]);
}

#[test]
fn zero_and_equality() {
    assert!(ScalarField::zero().is_zero());
    assert!(!ScalarField::one().is_zero());
    assert!(ScalarField::from_u64(4).equals(&ScalarField::from_u64(4)));
    assert!(!ScalarField::from_u64(4).equals(&ScalarField::from_u64(5)));
    assert!(BaseField::one().equals(&BaseField::from_u64(1)));
    assert!(!BaseField::one().equals(&BaseField::zero()));
}

#[test]
fn base_field_arithmetic() {
    let a = BaseField::from_u64(6);
    let b = BaseField::from_u64(7);
    assert_eq!(a.mul(&b), BaseField::from_u64(42));
    let minus_one = BaseField::from_limbs([0x992d30ed00000000, 0x224698fc094cf91b, 0, 0x4000000000000000])
        .unwrap();
    assert_eq!(minus_one.mul(&minus_one), BaseField::one());
    assert_eq!(a.pow_limbs(&[3, 0, 0, 0]), BaseField::from_u64(216));
    assert_eq!(BaseField::minus_one(), minus_one);
}

#[test]
fn orders_of_the_fields() {
    assert_eq!(<ScalarField as ForeignField>::modulus_limbs(), Q);
    assert_eq!(<BaseField as ForeignField>::modulus_limbs(), P);
}
