use bn_with_bigint::arith::{Error, U256};
use bn_with_bigint::fields::u512::U512;
use core::cmp::Ordering;

const SCALAR_MODULUS: [u128; 2] =
    [53438638232309528389504892708671455233, 64323764613183177041862057485226039389];

fn counting_bytes() -> [u8; 64] {
    let mut bytes = [0u8; 64];
    for (i, b) in bytes.iter_mut().enumerate() {
        *b = (i + 1) as u8;
    }
    bytes
}

#[test]
fn reads_sixty_four_bytes_most_significant_first() {
    let bytes = counting_bytes();
    let expected = U512([
        65392825175610104412738625059090743104,
        44041774702139455724840610475136659248,
        22690724228668807036942595891182575392,
        1339673755198158349044581307228491536,
    ]);
    assert_eq!(U512::interpret(&bytes), expected);
    match U512::from_slice(&bytes) {
        Ok(n) => assert_eq!(n, expected),
        Err(_) => panic!("sixty-four bytes are a 512-bit integer"),
    }
    let mut one = [0u8; 64];
    one[63] = 1;
    assert_eq!(U512::interpret(&one), U512([1, 0, 0, 0]));
    let mut top = [0u8; 64];
    top[0] = 0x80;
    assert_eq!(U512::interpret(&top), U512([0, 0, 0, 1 << 127]));
}

#[test]
fn another_length_is_an_error() {
    for len in [0usize, 1, 32, 63, 65, 128] {
        let bytes = vec![7u8; len];
        match U512::from_slice(&bytes) {
            Err(Error::InvalidLength { expected, actual }) => {
                assert_eq!(expected, 64);
                assert_eq!(actual, len);
            }
            Ok(_) => panic!("a buffer of {} bytes was accepted", len),
        }
    }
}

#[test]
fn eight_words_make_four_limbs() {
    let n = U512::from([1u64, 2, 3, 4, 5, 6, 7, 8]);
    assert_eq!(
        n,
        U512([
            (2u128 << 64) | 1,
            (4u128 << 64) | 3,
            (6u128 << 64) | 5,
            (8u128 << 64) | 7
        ])
    );
}

#[test]
fn widening_product_and_sum() {
    let a = U256([20095106327972375235668719608427373040, 24197857200151252746022454892744229665]);
    let b = U256([22774453838368691933757882222884355840, 21173125052858393283559285125768077040]);
    let m = U256(SCALAR_MODULUS);
    assert_eq!(
        U512::new(&a, &b, &m),
        U512([
            97115805158321103334330118927410127088,
            161223987790909151028496552606575599069,
            94140407988726576925887810167666450288,
            4574134371904104550034685926299508420,
        ])
    );
    let max = U256([u128::MAX, u128::MAX]);
    assert_eq!(
        U512::new(&max, &max, &max),
        U512([0, 0, u128::MAX, u128::MAX])
    );
    assert_eq!(U512::new(&U256::zero(), &b, &m), U512([b.0[0], b.0[1], 0, 0]));
}

#[test]
fn bits_of_a_512_bit_integer() {
    let n = U512([5, 0, 1 << 3, 1 << 127]);
    assert_eq!(n.get_bit(0), Some(true));
    assert_eq!(n.get_bit(1), Some(false));
    assert_eq!(n.get_bit(2), Some(true));
    assert_eq!(n.get_bit(128), Some(false));
    assert_eq!(n.get_bit(259), Some(true));
    assert_eq!(n.get_bit(510), Some(false));
    assert_eq!(n.get_bit(511), Some(true));
    assert_eq!(n.get_bit(512), None);
    assert_eq!(n.get_bit(usize::MAX), None);
}

#[test]
fn division_with_a_quotient_below_the_modulus() {
    let m = U256(SCALAR_MODULUS);
    let n = U512([
        234041376104467329768358921277747489222,
        219099024674174357190051119216387305612,
        2333710532281154037928242690,
        0,
    ]);
    let (q, r) = n.divrem(&m);
    assert_eq!(q, Some(U256([12345678901234567890123456789, 0])));
    assert_eq!(r, U256([987654321, 0]));
    assert_eq!(U512::new(&q.unwrap(), &r, &m), n);
}

#[test]
fn division_with_a_quotient_that_does_not_fit() {
    let m = U256(SCALAR_MODULUS);
    let n = U512([
        134351473349708985578604307872871789624,
        279465158934149700935886463558486303824,
        198312484241472401536209650552541253675,
        73058006044257005900892087411535316085,
    ]);
    let (q, r) = n.divrem(&m);
    assert_eq!(q, None);
    assert_eq!(
        r,
        U256([131950664274597798745622498952405701333, 26681437513834327060567516985859781036])
    );
    // A quotient of exactly 2^256 and more has its top bit at or beyond bit 256.
    let (q, r) = U512([0, 0, u128::MAX, u128::MAX]).divrem(&U256::one());
    assert_eq!(q, None);
    assert_eq!(r, U256::zero());
}

#[test]
fn division_of_small_numbers() {
    let seven = U256::from_u32(7);
    let (q, r) = U512([100, 0, 0, 0]).divrem(&seven);
    assert_eq!(q, None);
    assert_eq!(r, U256::from_u32(2));
    let (q, r) = U512([48, 0, 0, 0]).divrem(&seven);
    assert_eq!(q, Some(U256::from_u32(6)));
    assert_eq!(r, U256::from_u32(6));
    let (q, r) = U512([0, 0, 0, 0]).divrem(&seven);
    assert_eq!(q, Some(U256::zero()));
    assert_eq!(r, U256::zero());
}

#[test]
fn order_runs_from_the_top_limb_down() {
    let a = U512([9, 9, 9, 1]);
    let b = U512([0, 0, 0, 2]);
    assert_eq!(a.cmp(&b), Ordering::Less);
    assert_eq!(b.cmp(&a), Ordering::Greater);
    assert_eq!(a.cmp(&a), Ordering::Equal);
    assert_eq!(U512([1, 0, 0, 0]).cmp(&U512([0, 1, 0, 0])), Ordering::Less);
    assert_eq!(a.partial_cmp(&b), Some(Ordering::Less));
    assert!(a < b);
    assert!(b >= a);
    assert!(a == a);
    assert!(a != b);
}
