use public_input_prover::commitment::endos;
use public_input_prover::curve::Point;
use public_input_prover::field::{BaseField, ScalarField};
use public_input_prover::scalar_challenge::{
    base_field_endo_coefficient, endo_coefficient, ScalarChallenge,
};

fn point(x: [u64; 4], y: [u64; 4]) -> Point {
    Point {
        x: BaseField::from_limbs(x).unwrap(),
        y: BaseField::from_limbs(y).unwrap(),
        infinity: false,
    }
}

fn generator() -> Point {
    point([0x992d30ed00000000, 0x224698fc094cf91b, 0, 0x4000000000000000], [2, 0, 0, 0])
}

fn two_g() -> Point {
    point(
        [0x1303c567b0000003, 0xefee2ee4411acfc, 0x0, 0x1c00000000000000],
        [0x8aea5cdf3bfffffc, 0x17076ec9563fb75e, 0x0, 0x2b00000000000000],
    )
}

fn five_g() -> Point {
    point(
        [0x46fb61f4fd700ed1, 0xb3d7db2a600cb15d, 0xcd1e2d490ddb9ffd, 0x330aaaecedffbd4c],
        [0x27446ca1e8709285, 0x8f751349a7926d8, 0xdb1671ab21adb4b9, 0x470a2a2a4ab53ee],
    )
}

#[test]
fn the_generator_is_minus_one_two() {
    assert_eq!(Point::prime_subgroup_generator(), generator());
}

#[test]
fn doubling_the_generator() {
    let g = generator();
    assert_eq!(g.add(&g), two_g());
    assert_eq!(g.mul(&ScalarField::from_u64(2)), two_g());
}

#[test]
fn multiples_of_the_generator() {
    let g = generator();
    assert_eq!(g.mul(&ScalarField::from_u64(5)), five_g());
    assert_eq!(g.mul(&ScalarField::one()), g);
    assert!(g.mul(&ScalarField::zero()).infinity);
    assert_eq!(two_g().add(&two_g()).add(&g), five_g());
}

#[test]
fn a_point_and_its_inverse() {
    let g = generator();
    let minus_g = g.neg();
    assert_eq!(
        minus_g,
        point(
            [0x992d30ed00000000, 0x224698fc094cf91b, 0, 0x4000000000000000],
            [0x992d30ecffffffff, 0x224698fc094cf91b, 0x0, 0x4000000000000000],
        )
    );
    let sum = g.add(&minus_g);
    assert!(sum.infinity);
    // The point at infinity is its own inverse and changes no sum.
    assert_eq!(sum.neg(), sum);
    assert_eq!(sum.add(&g), g);
    assert!(g.equals(&generator()));
    assert!(!g.equals(&minus_g));
}

#[test]
fn constants_of_the_endomorphism() {
    let xi_r = endo_coefficient();
    assert_eq!(
        xi_r.to_limbs(),
        [0x2aa9d2e050aa0e4f, 0xfed467d47c033af, 0x511db4d81cf70f5a, 0x6819a58283e528e]
    );
    let xi_q = base_field_endo_coefficient();
    assert_eq!(
        xi_q.to_limbs(),
        [0x7b7fd22f0201b547, 0x5270d29d19fc7d2, 0xd3552a23a8554e50, 0x2d33357cb532458e]
    );
    // Both are cube roots of one.
    assert_eq!(xi_r.pow(3), ScalarField::one());
    assert_eq!(xi_q.pow_limbs(&[3, 0, 0, 0]), BaseField::one());
    let (endo_q, endo_r) = endos();
    assert_eq!(endo_q, xi_q);
    assert_eq!(
        endo_r.to_limbs(),
        [0x619d1840af55f1b1, 0x1259527ec1d4752e, 0xaee24b27e308f0a6, 0x397e65a7d7c1ad71]
    );
    // The scalar acts on the generator as the endomorphism does.
    let g = generator();
    let image = Point { x: g.x.mul(&endo_q), y: g.y, infinity: false };
    assert_eq!(g.mul(&endo_r), image);
}

#[test]
fn a_challenge_mapped_into_the_field() {
    let (_, endo_r) = endos();
    let one = ScalarChallenge(ScalarField::one());
    assert_eq!(
        one.to_field(&endo_r).to_limbs(),
        [0xde09869441f29476, 0x93fe9d982804c69e, 0xe71d819f97cebb3a, 0x1dc4964fc611e14b]
    );
    let c = ScalarChallenge(
        ScalarField::from_limbs([0xfedcba9876543210, 0x0123456789abcdef, 0, 0]).unwrap(),
    );
    assert_eq!(
        c.to_field(&endo_r).to_limbs(),
        [0xa3b44a55519547d6, 0xc75a712453a23940, 0x925ece1230ecb71f, 0x1405d814815b623a]
    );
    // Bits above the 128th do not count.
    let high = ScalarChallenge(
        ScalarField::from_limbs([0xfedcba9876543210, 0x0123456789abcdef, 77, 5]).unwrap(),
    );
    assert_eq!(high.to_field(&endo_r), c.to_field(&endo_r));
    assert_eq!(c.to_field_with_length(128, &endo_r), c.to_field(&endo_r));
}

#[test]
fn a_short_challenge_by_hand() {
    // Four bits 1110 with the endomorphism scalar 3: the pair 11 gives
    // a = 2 * 2 + 1 = 5, b = 4; the pair 10 gives a = 10 - 1 = 9, b = 8.
    let c = ScalarChallenge(ScalarField::from_u64(0b1110));
    let three = ScalarField::from_u64(3);
    assert_eq!(c.to_field_with_length(4, &three), ScalarField::from_u64(35));
    // No bit at all leaves a = b = 2.
    assert_eq!(c.to_field_with_length(0, &three), ScalarField::from_u64(8));
}
