use bn_with_bigint::arith::U256;
use bn_with_bigint::fields::fp::{const_fq, fq_minus3_div4, Fq, Fr};
use rand::Rng;

const FR_MODULUS: [u64; 4] =
    [0x43e1f593f0000001, 0x2833e84879b97091, 0xb85045b68181585d, 0x30644e72e131a029];
const FQ_MODULUS: [u64; 4] =
    [0x3c208c16d87cfd47, 0x97816a916871ca8d, 0xb85045b68181585d, 0x30644e72e131a029];

fn fr(n: u32) -> Fr {
    Fr::new(U256::from_u32(n)).unwrap()
}

fn fq(n: u32) -> Fq {
    Fq::new(U256::from_u32(n)).unwrap()
}

fn random_fr<R: Rng>(rng: &mut R) -> Fr {
    let mut buf = [0u8; 64];
    rng.fill(&mut buf[..]);
    Fr::interpret(&buf)
}

fn random_fq<R: Rng>(rng: &mut R) -> Fq {
    let mut buf = [0u8; 64];
    rng.fill(&mut buf[..]);
    Fq::interpret(&buf)
}

#[test]
fn test_rsquared() {
    let rng = &mut ::rand::thread_rng();

    for _ in 0..1000 {
        let a = random_fr(rng);
        let b: U256 = a.into();
        let c = Fr::new(b).unwrap();

        assert_eq!(a, c);
    }

    for _ in 0..1000 {
        let a = random_fq(rng);
        let b: U256 = a.into();
        let c = Fq::new(b).unwrap();

        assert_eq!(a, c);
    }
}

#[test]
fn sqrt_fq() {
    // from zcash test_proof.cpp
    let fq1 = Fq::from_str(
        "5204065062716160319596273903996315000119019512886596366359652578430118331601",
    )
    .unwrap();
    let fq2 = Fq::from_str("348579348568").unwrap();

    assert_eq!(fq1, fq2.sqrt().expect("348579348568 is quadratic residue"));
}

#[test]
fn square_of_the_root_is_the_element() {
    let a = Fq::from_str("348579348568").unwrap();
    let root = a.sqrt().unwrap();
    assert_eq!(
        root * root,
        Fq::from_str("348579348568").unwrap()
    );
    assert_eq!(
        root,
        Fq::from_str(
            "5204065062716160319596273903996315000119019512886596366359652578430118331601"
        )
        .unwrap()
    );
}

#[test]
fn decimal_string_read_back_from_the_scalar_field() {
    let a = Fr::from_str("348579348568").unwrap();
    let back: U256 = a.into();
    assert_eq!(back, U256([348579348568, 0]));
    assert_eq!(Fr::modulus(), U256::from_words(FR_MODULUS));
    assert_eq!(
        Fr::modulus(),
        U256([53438638232309528389504892708671455233, 64323764613183177041862057485226039389])
    );
}

#[test]
fn one_plus_one_is_two() {
    let two = Fr::zero() + Fr::one() + Fr::one();
    assert_eq!(Fr::one() + Fr::one(), two);
    assert_eq!(two, fr(2));
    let rng = &mut ::rand::thread_rng();
    for _ in 0..200 {
        let a = random_fr(rng);
        assert_eq!(a * two, a + a);
    }
    let two = Fq::zero() + Fq::one() + Fq::one();
    assert_eq!(Fq::one() + Fq::one(), two);
    for _ in 0..200 {
        let a = random_fq(rng);
        assert_eq!(a * two, a + a);
    }
}

#[test]
fn canonical_round_trip() {
    for words in [
        [0u64, 0, 0, 0],
        [1, 0, 0, 0],
        [0x43e1f593f0000000, 0x2833e84879b97091, 0xb85045b68181585d, 0x30644e72e131a029],
        [0x0123456789abcdef, 0xfedcba9876543210, 0x0f1e2d3c4b5a6978, 0x1020304050607080],
    ] {
        let x = U256::from_words(words);
        let back: U256 = Fr::new(x).unwrap().into();
        assert_eq!(back, x);
        let back: U256 = Fq::new(x).unwrap().into();
        assert_eq!(back, x);
    }
}

#[test]
fn integers_from_the_modulus_on_are_refused() {
    assert!(Fr::new(U256::from_words(FR_MODULUS)).is_none());
    assert!(Fq::new(U256::from_words(FQ_MODULUS)).is_none());
    assert!(Fr::new(U256::from_words(FQ_MODULUS)).is_none());
    assert!(Fq::new(U256::from_words(FR_MODULUS)).is_some());
    assert!(Fr::new(U256([u128::MAX, u128::MAX])).is_none());
    let mut below = FQ_MODULUS;
    below[0] -= 1;
    assert!(Fq::new(U256::from_words(below)).is_some());
}

#[test]
fn any_integer_is_reduced_by_the_unchecked_constructor() {
    let a = Fr::new_mul_factor(U256([u128::MAX, u128::MAX]));
    let back: U256 = a.into();
    assert_eq!(
        back,
        U256::from_words(
            [0xac96341c4ffffffa, 0x36fc76959f60cd29, 0x666ea36f7879462e, 0x0e0a77c19a07df2f]
        )
    );
    assert_eq!(Fr::new_mul_factor(U256::from_words(FR_MODULUS)), Fr::zero());
    assert_eq!(Fr::new_mul_factor(U256::from_u32(9)), fr(9));
}

#[test]
fn field_laws_on_random_elements() {
    let rng = &mut ::rand::thread_rng();
    for _ in 0..200 {
        let (a, b, c) = (random_fr(rng), random_fr(rng), random_fr(rng));
        assert_eq!((a + b) + c, a + (b + c));
        assert_eq!(a * (b + c), a * b + a * c);
        assert_eq!(a + (-a), Fr::zero());
        assert_eq!(a * Fr::one(), a);
        assert_eq!(a + b, b + a);
        assert_eq!(a * b, b * a);
        assert_eq!((a * b) * c, a * (b * c));
        assert_eq!(a - b, a + (-b));
        assert_eq!(a + Fr::zero(), a);
    }
    for _ in 0..200 {
        let (a, b, c) = (random_fq(rng), random_fq(rng), random_fq(rng));
        assert_eq!((a + b) + c, a + (b + c));
        assert_eq!(a * (b + c), a * b + a * c);
        assert_eq!(a + (-a), Fq::zero());
        assert_eq!(a * Fq::one(), a);
        assert_eq!(a - b, a + (-b));
    }
}

#[test]
fn sums_differences_and_negatives() {
    assert_eq!(fr(5) + fr(7), fr(12));
    assert_eq!(fr(12) - fr(7), fr(5));
    let minus_one = Fr::new(U256::from_words(
        [0x43e1f593f0000000, 0x2833e84879b97091, 0xb85045b68181585d, 0x30644e72e131a029],
    ))
    .unwrap();
    assert_eq!(fr(5) - fr(6), minus_one);
    assert_eq!(-fr(1), minus_one);
    assert_eq!(minus_one + fr(1), Fr::zero());
    assert_eq!(minus_one + fr(3), fr(2));
    assert_eq!(-Fr::zero(), Fr::zero());
    assert_eq!(Fr::zero() - Fr::zero(), Fr::zero());
    assert_eq!(fr(6) * fr(7), fr(42));
    assert_eq!(minus_one * minus_one, Fr::one());
    assert_eq!(fr(6).squared(), fr(36));
    assert!(fr(5) != fr(6));
}

#[test]
fn inverse_of_every_element_but_zero() {
    assert!(Fr::zero().inverse().is_none());
    assert!(Fq::zero().inverse().is_none());
    let seventh: U256 = fr(7).inverse().unwrap().into();
    assert_eq!(
        seventh,
        U256::from_words(
            [0x09b290cbfdb6db6e, 0x4ee2d80a5a8834a7, 0xac9dc0d0edede80d, 0x06e9c21069503b73]
        )
    );
    assert_eq!(Fr::one().inverse().unwrap(), Fr::one());
    let rng = &mut ::rand::thread_rng();
    for _ in 0..100 {
        let a = random_fr(rng);
        if !a.is_zero() {
            assert_eq!(a * a.inverse().unwrap(), Fr::one());
        }
        let b = random_fq(rng);
        if !b.is_zero() {
            assert_eq!(b * b.inverse().unwrap(), Fq::one());
        }
    }
}

#[test]
fn zero_is_zero() {
    assert!(Fr::zero().is_zero());
    assert!(!Fr::one().is_zero());
    assert!(Fq::new(U256::zero()).unwrap().is_zero());
    assert!((fq(3) - fq(3)).is_zero());
}

#[test]
fn wide_bytes_always_reduce() {
    let mut bytes = [0u8; 64];
    for (i, b) in bytes.iter_mut().enumerate() {
        *b = (i + 1) as u8;
    }
    let a: U256 = Fr::interpret(&bytes).into();
    assert_eq!(
        a,
        U256::from_words(
            [0x61268cff531b44dc, 0x3a76e5ab71564b50, 0xa879cfecd98a140e, 0x075d2a8d7d5b1f2b]
        )
    );
    let b: U256 = Fq::interpret(&bytes).into();
    assert_eq!(
        b,
        U256::from_words(
            [0xbc3fea65f77ec7b3, 0xf57d733b90d63c35, 0x4ed1fc2289c1a336, 0x2c5051e2dc362d2d]
        )
    );
    assert_eq!(Fr::interpret(&bytes), Fr::interpret(&bytes));
    assert_eq!(Fr::interpret(&[0u8; 64]), Fr::zero());
    let all = [0xffu8; 64];
    let top: U256 = Fr::interpret(&all).into();
    assert!(top < Fr::modulus());
    let rng = &mut ::rand::thread_rng();
    for _ in 0..200 {
        let c: U256 = random_fq(rng).into();
        assert!(c < Fq::modulus());
    }
}

#[test]
fn decimal_strings() {
    assert_eq!(Fr::from_str("").unwrap(), Fr::zero());
    assert_eq!(Fr::from_str("0").unwrap(), Fr::zero());
    assert_eq!(Fr::from_str("007").unwrap(), fr(7));
    assert_eq!(Fr::from_str("4294967295").unwrap(), fr(u32::MAX));
    let a: U256 = Fr::from_str("123456789012345678901234567890").unwrap().into();
    assert_eq!(a, U256::from_words([0xc373e0ee4e3f0ad2, 0x000000018ee90ff6, 0, 0]));
    let big: U256 = Fr::from_str(
        "100000000000000000000000000000000000000000000000000000000000000000000000000000007",
    )
    .unwrap()
    .into();
    assert_eq!(
        big,
        U256::from_words(
            [0xb809f83d7fffee2f, 0x05695a28c9d05fec, 0xf5758a8f13a35a85, 0x20126c3d1e5e06ff]
        )
    );
    assert_eq!(
        Fr::from_str(
            "21888242871839275222246405745257275088548364400416034343698204186575808495617"
        )
        .unwrap(),
        Fr::zero()
    );
    assert!(Fr::from_str("12a4").is_none());
    assert!(Fr::from_str("-5").is_none());
    assert!(Fr::from_str(" 5").is_none());
    assert!(Fr::from_str("5.0").is_none());
    assert!(Fr::from_str("١٢٣").is_none());
    assert!(Fq::from_str("0x10").is_none());
}

#[test]
fn powers() {
    let x: U256 = fq(3).pow(U256::from_u32(1000)).into();
    assert_eq!(
        x,
        U256::from_words(
            [0xe6b280c99585d7cd, 0x5a0f85018b8e0a90, 0x660d52110b48bd74, 0x002aad41e5a39de7]
        )
    );
    assert_eq!(fq(3).pow(U256::zero()), Fq::one());
    assert_eq!(Fq::zero().pow(U256::zero()), Fq::one());
    assert_eq!(Fq::zero().pow(U256::from_u32(5)), Fq::zero());
    assert_eq!(fr(2).pow(U256::from_u32(10)), fr(1024));
    let mut below = FR_MODULUS;
    below[0] -= 1;
    assert_eq!(fr(5).pow(U256::from_words(below)), Fr::one());
}

#[test]
fn square_roots() {
    assert!(fq(3).sqrt().is_none());
    assert!((-Fq::one()).sqrt().is_none());
    assert_eq!(Fq::zero().sqrt(), Some(Fq::zero()));
    assert_eq!(Fq::one().sqrt(), Some(Fq::one()));
    let mut exponent = Fq::modulus();
    exponent.0[0] += 1;
    exponent = U256([(exponent.0[0] >> 2) | (exponent.0[1] << 126), exponent.0[1] >> 2]);
    assert_eq!(fq(2).sqrt(), Some(fq(2).pow(exponent)));
    let rng = &mut ::rand::thread_rng();
    for _ in 0..50 {
        let x = random_fq(rng);
        let root = (x * x).sqrt().unwrap();
        assert!(root == x || root == -x);
        match x.sqrt() {
            Some(y) => assert_eq!(y * y, x),
            None => assert!((-x).sqrt().is_some()),
        }
    }
}

#[test]
fn the_square_root_exponent() {
    let e = fq_minus3_div4();
    assert_eq!(fq(4) * e + fq(3), Fq::zero());
    let canonical: U256 = e.into();
    assert_eq!(
        canonical,
        U256::from_words(
            [0x4f082305b61f3f51, 0x65e05aa45a1c72a3, 0x6e14116da0605617, 0x0c19139cb84c680a]
        )
    );
}

#[test]
fn raw_montgomery_forms() {
    let one = const_fq(
        [0xd35d438dc58f0d9d, 0x0a78eb28f5c70b3d, 0x666ea36f7879462c, 0x0e0a77c19a07df2f],
    );
    assert_eq!(one, Fq::one());
    assert_eq!(
        *fr(7).raw(),
        U256::from_words(
            [0x3057819e4fffffdb, 0x307f6d866832bb01, 0x5c65ec9f484e3a89, 0x0180a96573d3d9f8]
        )
    );
    assert_eq!(const_fq([0, 0, 0, 0]), Fq::zero());
    let mut five = fq(5);
    assert_eq!(
        *five.raw(),
        U256::from_words(
            [0xe4b1c5ae034e46ca, 0x9cdb2d3b64716da7, 0x47d8eb76d8dd067e, 0x15d0085520f5bbc3]
        )
    );
    five.set_bit(0, false);
    assert_eq!(five, fq(5));
    five.set_bit(300, true);
    assert_eq!(five, fq(5));
    five.set_bit(0, true);
    assert_eq!(
        *five.raw(),
        U256::from_words(
            [0xe4b1c5ae034e46cb, 0x9cdb2d3b64716da7, 0x47d8eb76d8dd067e, 0x15d0085520f5bbc3]
        )
    );
}

#[test]
fn montgomery_constants() {
    assert_eq!(Fr::one().inv(), 0x6586864b4c6911b3c2e1f593efffffff);
    assert_eq!(Fq::one().inv(), 0x9ede7d651eca6ac987d20782e4866389);
    let low = Fq::modulus().0[0];
    assert_eq!(low.wrapping_mul(Fq::one().inv()), u128::MAX);
    let low = Fr::modulus().0[0];
    assert_eq!(low.wrapping_mul(Fr::one().inv()), u128::MAX);
    assert_eq!(Fq::modulus(), U256::from_words(FQ_MODULUS));
}
