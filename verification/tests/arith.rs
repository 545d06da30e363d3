use bn_with_bigint::arith::{
    adc, add_nocarry, bytes_to_bits_le, combine_u128, div2, from_word_vec, mac_digit, mono_invert,
    mono_mul, mul2, mul_reduce, split_u128, sub_noborrow, sub_noborrow_raw, to_word_vec,
    u256_add_mod, u256_bits, u256_get_bit, u256_is_even, u256_neg_mod, u256_set_bit,
    u256_sub_mod, U256,
};

const SCALAR_MODULUS: [u128; 2] =
    [53438638232309528389504892708671455233, 64323764613183177041862057485226039389];
const SCALAR_INV: u128 = 0x6586864b4c6911b3c2e1f593efffffff;

#[test]
fn test_mono_mul_basic() {
    // Example values (these should be chosen to be meaningful for your use case)
    let mut oprand = U256::from_words(to_word_vec(&[
        197819666991454437478780191616651403388,
        17407853256822004207887426165839118766,
    ]));
    let other = U256::from_words(to_word_vec(&[
        241790196284204419545734427407138093705,
        9100138014801027929810694757406572534,
    ]));
    let modulo = U256::from_words(to_word_vec(&[
        201385395114098847380338600778089168199,
        64323764613183177041862057485226039389,
    ]));

    let inv: u128 = 211173256549385567650468519415768310665;

    mono_mul(&mut oprand, &other, &modulo, inv);

    mono_invert(&mut oprand, &modulo);

    let expected = U256::from_words(to_word_vec(&[
        162169656296878901026329651626330491773,
        45202910072195800725160941991901349318,
    ]));

    assert_eq!(oprand, expected, "mono_mul did not produce expected result");
}

#[test]
fn test_mono_sub_basic() {
    // Example values (these should be chosen to be meaningful for your use case)
    let mut oprand = U256::from_words(to_word_vec(&[
        197819666991454437478780191616651403388,
        17407853256822004207887426165839118766,
    ]));
    let mut other = U256::from_words(to_word_vec(&[
        241790196284204419545734427407138093705,
        9100138014801027929810694757406572534,
    ]));
    let modulo = U256::from_words(to_word_vec(&[
        201385395114098847380338600778089168199,
        64323764613183177041862057485226039389,
    ]));

    u256_sub_mod(&mut oprand, &other, &modulo);

    u256_sub_mod(&mut other, &oprand, &modulo);

    let expected_oprand = U256::from_words(to_word_vec(&[
        296311837628188481396420371641281521139,
        8307715242020976278076731408432546231,
    ]));
    let expected_other = U256::from_words(to_word_vec(&[
        285760725576954401612688663197624784022,
        792422772780051651733963348974026302,
    ]));

    assert_eq!(
        oprand, expected_oprand,
        "mono_mul did not produce expected result"
    );
    assert_eq!(
        other, expected_other,
        "mono_mul did not produce expected result"
    );
}

#[test]
fn split_and_combine_halves() {
    let x: u128 = 0x0123456789abcdef_fedcba9876543210;
    assert_eq!(split_u128(x), (0x0123456789abcdef, 0xfedcba9876543210));
    assert_eq!(combine_u128(0x0123456789abcdef, 0xfedcba9876543210), x);
    assert_eq!(split_u128(0), (0, 0));
    assert_eq!(split_u128(u128::MAX), (u64::MAX as u128, u64::MAX as u128));
}

#[test]
fn adc_carries_out_of_the_limb() {
    let mut carry = 0;
    assert_eq!(adc(u128::MAX, 1, &mut carry), 0);
    assert_eq!(carry, 1);
    assert_eq!(adc(u128::MAX, u128::MAX, &mut carry), u128::MAX);
    assert_eq!(carry, 1);
    carry = 0;
    assert_eq!(adc(5, 7, &mut carry), 12);
    assert_eq!(carry, 0);
}

#[test]
fn word_conversion_round_trip() {
    let limbs = [0x0011223344556677_8899aabbccddeeff, 0x0123456789abcdef_0f1e2d3c4b5a6978];
    let words = to_word_vec(&limbs);
    assert_eq!(
        words,
        [0x8899aabbccddeeff, 0x0011223344556677, 0x0f1e2d3c4b5a6978, 0x0123456789abcdef]
    );
    assert_eq!(from_word_vec(&words), limbs);
    assert_eq!(U256::from_words(words).to_words(), words);
    assert_eq!(U256::from_words(words), U256(limbs));
}

#[test]
fn small_constructors() {
    assert_eq!(U256::zero(), U256([0, 0]));
    assert_eq!(U256::one(), U256([1, 0]));
    assert_eq!(U256::from_u32(0xdeadbeef), U256([0xdeadbeef, 0]));
}

#[test]
fn add_and_subtract_across_limbs() {
    let mut a = U256([u128::MAX, 3]);
    add_nocarry(&mut a, &U256([2, 4]));
    assert_eq!(a, U256([1, 8]));
    sub_noborrow(&mut a, &U256([2, 4]));
    assert_eq!(a, U256([u128::MAX, 3]));
    let mut raw = [0, 1];
    sub_noborrow_raw(&mut raw, &[1, 0]);
    assert_eq!(raw, [u128::MAX, 0]);
}

#[test]
fn doubling_and_halving() {
    let mut a = U256([1 << 127, 1]);
    mul2(&mut a);
    assert_eq!(a, U256([0, 3]));
    div2(&mut a);
    assert_eq!(a, U256([1 << 127, 1]));
    let mut top = U256([0, 1 << 127]);
    mul2(&mut top);
    assert_eq!(top, U256([0, 0]));
    let mut odd = U256([3, 1]);
    div2(&mut odd);
    assert_eq!(odd, U256([(1 << 127) | 1, 0]));
}

#[test]
fn bits_of_a_wide_integer() {
    let a = U256([20095106327972375235668719608427373040, 24197857200151252746022454892744229665]);
    assert_eq!(u256_get_bit(&a, 4), Some(true));
    assert_eq!(u256_get_bit(&a, 0), Some(false));
    assert_eq!(u256_get_bit(&a, 200), Some(true));
    assert_eq!(u256_get_bit(&a, 255), Some(false));
    assert_eq!(u256_get_bit(&a, 256), None);
    let mut b = a;
    assert!(u256_set_bit(&mut b, 4, false));
    assert_eq!(
        b,
        U256([20095106327972375235668719608427373024, 24197857200151252746022454892744229665])
    );
    assert!(u256_set_bit(&mut b, 4, true));
    assert_eq!(b, a);
    assert!(u256_set_bit(&mut b, 200, true));
    assert_eq!(b, a);
    assert!(!u256_set_bit(&mut b, 256, true));
    assert_eq!(b, a);
    assert!(u256_is_even(&a));
    assert!(!u256_is_even(&U256([1, 0])));
}

#[test]
fn bit_walk_runs_from_the_top() {
    let a = U256([5, 1 << 127]);
    let mut bits = u256_bits(&a);
    assert_eq!(bits.next(), Some(true));
    for _ in 0..252 {
        assert_eq!(bits.next(), Some(false));
    }
    assert_eq!(bits.next(), Some(true));
    assert_eq!(bits.next(), Some(false));
    assert_eq!(bits.next(), Some(true));
    assert_eq!(bits.next(), None);
    assert_eq!(bits.next(), None);
}

#[test]
fn bytes_spread_least_significant_bit_first() {
    assert_eq!(bytes_to_bits_le(&[]), Vec::<bool>::new());
    assert_eq!(
        bytes_to_bits_le(&[0b0000_0101, 0x80]),
        vec![
            true, false, true, false, false, false, false, false, false, false, false, false,
            false, false, false, true
        ]
    );
}

#[test]
fn modular_helpers() {
    let m = U256(SCALAR_MODULUS);
    let a = U256([20095106327972375235668719608427373040, 24197857200151252746022454892744229665]);
    let b = U256([22774453838368691933757882222884355840, 21173125052858393283559285125768077040]);
    let mut s = a;
    u256_add_mod(&mut s, &b, &m);
    assert_eq!(
        s,
        U256([42869560166341067169426601831311728880, 45370982253009646029581740018512306705])
    );
    let mut big = U256([SCALAR_MODULUS[0] - 1, SCALAR_MODULUS[1]]);
    u256_add_mod(&mut big, &U256([3, 0]), &m);
    assert_eq!(big, U256([2, 0]));
    let mut d = a;
    u256_sub_mod(&mut d, &b, &m);
    assert_eq!(
        d,
        U256([337603019410542146765285444817311228656, 3024732147292859462463169766976152624])
    );
    let mut e = b;
    u256_sub_mod(&mut e, &a, &m);
    assert_eq!(
        e,
        U256([56117985742705845087594055323128438033, 61299032465890317579398887718249886764])
    );
    let mut n = a;
    u256_neg_mod(&mut n, &m);
    assert_eq!(
        n,
        U256([33343531904337153153836173100244082193, 40125907413031924295839602592481809724])
    );
    let mut z = U256::zero();
    u256_neg_mod(&mut z, &m);
    assert_eq!(z, U256::zero());
}

#[test]
fn multiply_accumulate_at_an_offset() {
    let mut acc = [5, u128::MAX, 0, 0];
    mac_digit(1, &mut acc, &[u128::MAX, u128::MAX], u128::MAX);
    assert_eq!(acc, [5, 0, 0, u128::MAX]);
    let mut same = [1, 2, 3, 4];
    mac_digit(0, &mut same, &[7, 7], 0);
    assert_eq!(same, [1, 2, 3, 4]);
    let mut high = [0, 0, 1, 0];
    mac_digit(2, &mut high, &[3, 1], 2);
    assert_eq!(high, [0, 0, 7, 2]);
}

#[test]
fn montgomery_quotient_before_and_after_the_subtraction() {
    let x = [217891111091201498065467757902953846245, 52833353748469634101383691351431568730];
    let y = [66733775741679084601253127149186731193, 48101233069478079733086512780824388926];
    let mut t = x;
    mul_reduce(&mut t, &y, &SCALAR_MODULUS, SCALAR_INV);
    assert_eq!(
        t,
        [163702518617941658572275816542667796701, 68955761933981872198564506939444608117]
    );
    let mut r = U256(x);
    mono_mul(&mut r, &U256(y), &U256(SCALAR_MODULUS), SCALAR_INV);
    assert_eq!(
        r,
        U256([110263880385632130182770923833996341468, 4631997320798695156702449454218568728])
    );
}

#[test]
fn montgomery_product_of_reduced_operands() {
    let a = U256([20095106327972375235668719608427373040, 24197857200151252746022454892744229665]);
    let b = U256([22774453838368691933757882222884355840, 21173125052858393283559285125768077040]);
    let mut r = a;
    mono_mul(&mut r, &b, &U256(SCALAR_MODULUS), SCALAR_INV);
    assert_eq!(
        r,
        U256([110160707608695446871004179302008396436, 1290790030015974349633322247153297225])
    );
}

#[test]
fn inverse_by_the_binary_euclidean_algorithm() {
    let a = U256([20095106327972375235668719608427373040, 24197857200151252746022454892744229665]);
    let mut r = a;
    mono_invert(&mut r, &U256(SCALAR_MODULUS));
    assert_eq!(
        r,
        U256([204927303294675039877908654852827445292, 58866733606689716073461484663402586128])
    );
    let mut one = U256::one();
    mono_invert(&mut one, &U256(SCALAR_MODULUS));
    assert_eq!(one, U256::one());
    let mut three = U256::from_u32(3);
    mono_invert(&mut three, &U256::from_u32(7));
    assert_eq!(three, U256::from_u32(5));
}

#[test]
fn order_of_wide_integers() {
    assert!(U256([0, 1]) > U256([u128::MAX, 0]));
    assert!(U256([1, 1]) > U256([0, 1]));
    assert!(U256([1, 1]) >= U256([1, 1]));
    assert!(U256([u128::MAX, 0]) < U256([0, 1]));
    assert!(U256([1, 0]) != U256([0, 1]));
}
