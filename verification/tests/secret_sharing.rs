use rand::rngs::StdRng;
use rand::{Rng, SeedableRng};
use raw_ipa::ff::{Field, Fp31, Fp32BitPrime, Gf2, Gf32Bit, Serializable};
use raw_ipa::helpers::Role;
use raw_ipa::rng::RandomSource;
use raw_ipa::secret_sharing::replicated::malicious::{
    AdditiveShare, Downgrade, ExtendableField, ThisCodeIsAuthorizedToDowngradeFromMalicious,
};
use raw_ipa::secret_sharing::replicated::semi_honest::AdditiveShare as SemiHonestAdditiveShare;
use raw_ipa::secret_sharing::{BitDecomposed, IntoShares};
use raw_ipa::test_fixture::Reconstruct;

/// A generator with a seed, so that a test draws the same numbers every
/// time.
struct Seeded(StdRng);

impl Seeded {
    fn seed_from_u64(seed: u64) -> Self {
        Self(StdRng::seed_from_u64(seed))
    }
}

impl RandomSource for Seeded {
    fn next_u128(&mut self) -> u128 {
        self.0.gen()
    }
}

fn random_fp31<R: Rng>(rng: &mut R) -> Fp31 {
    Fp31::truncate_from(rng.gen::<u128>())
}

#[test]
#[allow(clippy::many_single_char_names)]
fn test_local_operations() {
    let mut rng = rand::thread_rng();

    let a = random_fp31(&mut rng);
    let b = random_fp31(&mut rng);
    let c = random_fp31(&mut rng);
    let d = random_fp31(&mut rng);
    let e = random_fp31(&mut rng);
    let f = random_fp31(&mut rng);
    // Randomization constant
    let r = random_fp31(&mut rng);

    let one_shared = Fp31::one().share_with(&mut rng);
    let a_shared = a.share_with(&mut rng);
    let b_shared = b.share_with(&mut rng);
    let c_shared = c.share_with(&mut rng);
    let d_shared = d.share_with(&mut rng);
    let e_shared = e.share_with(&mut rng);
    let f_shared = f.share_with(&mut rng);
    // Randomization constant
    let r_shared = r.share_with(&mut rng);

    let ra = a * r;
    let rb = b * r;
    let rc = c * r;
    let rd = d * r;
    let re = e * r;
    let rf = f * r;

    let ra_shared = ra.share_with(&mut rng);
    let rb_shared = rb.share_with(&mut rng);
    let rc_shared = rc.share_with(&mut rng);
    let rd_shared = rd.share_with(&mut rng);
    let re_shared = re.share_with(&mut rng);
    let rf_shared = rf.share_with(&mut rng);

    let mut results = Vec::with_capacity(3);

    for role in Role::all() {
        let i = usize::from(role.index());
        let malicious_one = AdditiveShare::new(one_shared[i].clone(), r_shared[i].clone());
        let malicious_a = AdditiveShare::new(a_shared[i].clone(), ra_shared[i].clone());
        let malicious_b = AdditiveShare::new(b_shared[i].clone(), rb_shared[i].clone());
        let malicious_c = AdditiveShare::new(c_shared[i].clone(), rc_shared[i].clone());
        let malicious_d = AdditiveShare::new(d_shared[i].clone(), rd_shared[i].clone());
        let malicious_e = AdditiveShare::new(e_shared[i].clone(), re_shared[i].clone());
        let malicious_f = AdditiveShare::new(f_shared[i].clone(), rf_shared[i].clone());

        let malicious_a_plus_b = malicious_a + &malicious_b;
        let malicious_c_minus_d = malicious_c - &malicious_d;
        let malicious_1_minus_e = malicious_one - &malicious_e;
        let malicious_2f = malicious_f * Fp31::truncate_from(2_u128);

        let mut temp = -malicious_a_plus_b - &malicious_c_minus_d - &malicious_1_minus_e;
        temp = temp * Fp31::truncate_from(6_u128);
        results.push(temp + &malicious_2f);
    }

    let correct = (-(a + b) - (c - d) - (Fp31::one() - e)) * Fp31::truncate_from(6_u128)
        + Fp31::truncate_from(2_u128) * f;

    assert_eq!(
        [
            results[0].x().access_without_downgrade(),
            results[1].x().access_without_downgrade(),
            results[2].x().access_without_downgrade(),
        ]
        .reconstruct(),
        correct,
    );
    assert_eq!(
        [results[0].rx(), results[1].rx(), results[2].rx()].reconstruct(),
        correct * r,
    );
}

#[test]
fn downgrade() {
    let mut rng = rand::thread_rng();
    let x = SemiHonestAdditiveShare::new(random_fp31(&mut rng), random_fp31(&mut rng));
    let y = SemiHonestAdditiveShare::new(random_fp31(&mut rng), random_fp31(&mut rng));
    let m = AdditiveShare::new(x.clone(), y);
    assert_eq!(x, Downgrade::downgrade(m).access_without_downgrade());
}

#[test]
fn fp31_arithmetic() {
    let a = Fp31::truncate_from(24);
    let b = Fp31::truncate_from(12);
    assert_eq!(5, (a + b).as_u128());
    assert_eq!(12, (a - b).as_u128());
    assert_eq!(19, (b - a).as_u128());
    assert_eq!(9, (a * b).as_u128());
    assert_eq!(7, (-a).as_u128());
    assert_eq!(0, (-Fp31::zero()).as_u128());
    assert_eq!(1, Fp31::one().as_u128());
    assert_eq!(2, Fp31::truncate_from(33).as_u128());
    assert_eq!(0, (a - a).as_u128());
}

#[test]
fn fp32_bit_prime_arithmetic() {
    let p: u128 = 4_294_967_291;
    let a = Fp32BitPrime::truncate_from(p - 1);
    let b = Fp32BitPrime::truncate_from(5);
    assert_eq!(4, (a + b).as_u128());
    assert_eq!(p - 6, (a - b).as_u128());
    assert_eq!(6, (b - a).as_u128());
    assert_eq!(p - 5, (a * b).as_u128());
    assert_eq!(1, (a * a).as_u128());
    assert_eq!(1, (-a).as_u128());
    assert_eq!(4, Fp32BitPrime::truncate_from(u128::from(u32::MAX)).as_u128());
    assert_eq!(0, Fp32BitPrime::truncate_from(p).as_u128());
}

#[test]
fn gf2_arithmetic() {
    let zero = Gf2::zero();
    let one = Gf2::one();
    assert_eq!(one, zero + one);
    assert_eq!(zero, one + one);
    assert_eq!(one, one - zero);
    assert_eq!(zero, one - one);
    assert_eq!(one, one * one);
    assert_eq!(zero, one * zero);
    assert_eq!(one, -one);
    assert_eq!(1, Gf2::truncate_from(3).as_u128());
    assert_eq!(0, Gf2::truncate_from(2).as_u128());
}

#[test]
fn gf32_bit_arithmetic() {
    let a = Gf32Bit::truncate_from(0b1100);
    let b = Gf32Bit::truncate_from(0b1010);
    assert_eq!(0b0110, (a + b).as_u128());
    assert_eq!(0b0110, (a - b).as_u128());
    assert_eq!(0b1100, (-a).as_u128());
    // (x^3 + x^2) * (x^3 + x) = x^6 + x^5 + x^4 + x^3
    assert_eq!(0b111_1000, (a * b).as_u128());
    assert_eq!(0b1100, (a * Gf32Bit::one()).as_u128());
    assert_eq!(0, (a * Gf32Bit::zero()).as_u128());
    // x^31 * x = x^32 = x^7 + x^3 + x^2 + 1
    let top = Gf32Bit::truncate_from(1 << 31);
    let x = Gf32Bit::truncate_from(2);
    assert_eq!(0b1000_1101, (top * x).as_u128());
    // (x^31 + 1) * x^2 = x^33 + x^2 = x^8 + x^4 + x^3 + x + x^2
    let y = Gf32Bit::truncate_from((1 << 31) | 1);
    let x2 = Gf32Bit::truncate_from(4);
    assert_eq!(0b1_0001_1110, (y * x2).as_u128());
    assert_eq!(0x1234_5678, Gf32Bit::truncate_from(0xabcd_1234_5678).as_u128());
}

#[test]
fn gf32_bit_multiplication_is_commutative_and_distributes() {
    let mut rng = StdRng::seed_from_u64(7);
    for _ in 0..100 {
        let a = Gf32Bit::truncate_from(rng.gen::<u128>());
        let b = Gf32Bit::truncate_from(rng.gen::<u128>());
        let c = Gf32Bit::truncate_from(rng.gen::<u128>());
        assert_eq!(a * b, b * a);
        assert_eq!((a + b) * c, a * c + b * c);
        assert_eq!((a * b) * c, a * (b * c));
    }
}

#[test]
fn extension_embeds_the_bit() {
    assert_eq!(1, Gf2::one().to_extended().as_u128());
    assert_eq!(0, Gf2::zero().to_extended().as_u128());
    assert_eq!(17, ExtendableField::to_extended(&Fp31::truncate_from(17)).as_u128());
}

#[test]
fn share_reconstructs_to_the_value() {
    let mut rng = Seeded::seed_from_u64(1);
    for v in 0..31_u128 {
        let value = Fp31::truncate_from(v);
        let shares = value.share_with(&mut rng);
        assert_eq!(shares[0].right(), shares[1].left());
        assert_eq!(shares[1].right(), shares[2].left());
        assert_eq!(shares[2].right(), shares[0].left());
        assert_eq!(value, shares.reconstruct());
        assert_eq!(Some(value), shares.try_reconstruct());
    }
    let bit = Gf2::one();
    assert_eq!(bit, bit.share().reconstruct());
    let wide = Gf32Bit::truncate_from(0xdead_beef);
    assert_eq!(wide, wide.share_with(&mut rng).reconstruct());
}

#[test]
fn shares_that_do_not_fit_are_not_reconstructed() {
    let one = Fp31::one();
    let zero = Fp31::zero();
    let shares = [
        SemiHonestAdditiveShare::new(one, zero),
        SemiHonestAdditiveShare::new(zero, zero),
        SemiHonestAdditiveShare::new(one, one),
    ];
    assert_eq!(None, shares.try_reconstruct());
}

#[test]
fn lists_are_shared_element_by_element() {
    let mut rng = Seeded::seed_from_u64(2);
    let values: Vec<Fp31> = (0..10_u128).map(Fp31::truncate_from).collect();
    let [s0, s1, s2] = values.clone().share_with(&mut rng);
    assert_eq!(10, s0.len());
    assert_eq!(10, s1.len());
    assert_eq!(10, s2.len());
    for i in 0..10 {
        assert_eq!(values[i], [s0[i], s1[i], s2[i]].reconstruct());
    }
    let bits = BitDecomposed::new(vec![Gf2::one(), Gf2::zero(), Gf2::one()]);
    let [b0, b1, b2] = bits.share_with(&mut rng);
    assert_eq!(3, b0.len());
    for (i, expected) in [Gf2::one(), Gf2::zero(), Gf2::one()].into_iter().enumerate() {
        let parts = [*b0.get(i).unwrap(), *b1.get(i).unwrap(), *b2.get(i).unwrap()];
        assert_eq!(expected, parts.reconstruct());
    }
    let [(), (), ()] = ().share_with(&mut rng);
}

#[test]
fn serialization_round_trips() {
    let v = Fp31::truncate_from(30);
    let mut buf = [0_u8; 1];
    v.serialize(&mut buf);
    assert_eq!([30], buf);
    assert_eq!(v, Fp31::deserialize(&buf));
    assert_eq!(Fp31::truncate_from(200 % 31), Fp31::deserialize(&[200]));

    let w = Fp32BitPrime::truncate_from(0x0102_0304);
    let mut buf = [0_u8; 4];
    w.serialize(&mut buf);
    assert_eq!([4, 3, 2, 1], buf);
    assert_eq!(w, Fp32BitPrime::deserialize(&buf));
    assert_eq!(4, Fp32BitPrime::deserialize(&[255, 255, 255, 255]).as_u128());

    let g = Gf32Bit::truncate_from(0xa1b2_c3d4);
    let mut buf = [0_u8; 4];
    g.serialize(&mut buf);
    assert_eq!([0xd4, 0xc3, 0xb2, 0xa1], buf);
    assert_eq!(g, Gf32Bit::deserialize(&buf));

    let mut buf = [9_u8; 1];
    Gf2::one().serialize(&mut buf);
    assert_eq!([1], buf);
    assert_eq!(Gf2::one(), Gf2::deserialize(&[3]));
    assert_eq!(Gf2::zero(), Gf2::deserialize(&[2]));
}

#[test]
fn malicious_share_is_serialized_as_value_then_check_value() {
    let x = SemiHonestAdditiveShare::new(Gf2::one(), Gf2::zero());
    let rx = SemiHonestAdditiveShare::new(
        Gf32Bit::truncate_from(0x0403_0201),
        Gf32Bit::truncate_from(0x0807_0605),
    );
    let share = AdditiveShare::new(x, rx);
    assert_eq!(10, <AdditiveShare<Gf2> as Serializable>::size());
    let mut buf = [0_u8; 10];
    share.serialize(&mut buf);
    assert_eq!([1, 0, 1, 2, 3, 4, 5, 6, 7, 8], buf);
    assert_eq!(share, AdditiveShare::<Gf2>::deserialize(&buf));

    let y = SemiHonestAdditiveShare::new(Fp31::truncate_from(3), Fp31::truncate_from(4));
    let ry = SemiHonestAdditiveShare::new(Fp31::truncate_from(5), Fp31::truncate_from(6));
    let share = AdditiveShare::new(y, ry);
    let mut buf = [0_u8; 4];
    share.serialize(&mut buf);
    assert_eq!([3, 4, 5, 6], buf);
    assert_eq!(share, AdditiveShare::<Fp31>::deserialize(&buf));
}

#[test]
fn in_place_operations_agree_with_the_operators() {
    let a = AdditiveShare::new(
        SemiHonestAdditiveShare::new(Fp31::truncate_from(3), Fp31::truncate_from(30)),
        SemiHonestAdditiveShare::new(Fp31::truncate_from(7), Fp31::truncate_from(8)),
    );
    let b = AdditiveShare::new(
        SemiHonestAdditiveShare::new(Fp31::truncate_from(29), Fp31::truncate_from(2)),
        SemiHonestAdditiveShare::new(Fp31::truncate_from(1), Fp31::truncate_from(9)),
    );
    let mut sum = a;
    sum.add_assign(&b);
    assert_eq!(a + &b, sum);
    assert_eq!(
        &SemiHonestAdditiveShare::new(Fp31::truncate_from(1), Fp31::truncate_from(1)),
        sum.x().access_without_downgrade()
    );
    let mut difference = a;
    difference.sub_assign(&b);
    assert_eq!(a - &b, difference);
    assert_eq!(
        &SemiHonestAdditiveShare::new(Fp31::truncate_from(6), Fp31::truncate_from(30)),
        difference.rx()
    );
    assert_eq!(AdditiveShare::<Fp31>::zero(), AdditiveShare::default());
    assert_eq!(a, a + &AdditiveShare::zero());
}

#[test]
fn collections_are_downgraded_element_by_element() {
    let x = SemiHonestAdditiveShare::new(Fp31::truncate_from(3), Fp31::truncate_from(4));
    let y = SemiHonestAdditiveShare::new(Fp31::truncate_from(5), Fp31::truncate_from(6));
    let m = AdditiveShare::new(x, y);
    let n = AdditiveShare::new(y, x);
    assert_eq!(x, m.downgrade().access_without_downgrade());
    assert_eq!(vec![x, y], Downgrade::downgrade(vec![m, n]).access_without_downgrade());
    assert_eq!((x, y), Downgrade::downgrade((m, n)).access_without_downgrade());
    assert_eq!(x, Downgrade::downgrade(x).access_without_downgrade());
    let bits = Downgrade::downgrade(BitDecomposed::new(vec![n, m])).access_without_downgrade();
    assert_eq!(BitDecomposed::new(vec![y, x]), bits);
}

#[test]
fn the_same_seed_gives_the_same_shares() {
    let value = Fp32BitPrime::truncate_from(123_456_789);
    let first = value.share_with(&mut Seeded::seed_from_u64(11));
    let second = value.share_with(&mut Seeded::seed_from_u64(11));
    let other = value.share_with(&mut Seeded::seed_from_u64(12));
    assert_eq!(first, second);
    assert_ne!(first, other);
    assert_eq!(value, other.reconstruct());
}

#[test]
fn shares_come_from_what_is_drawn() {
    struct Fixed(Vec<u128>);
    impl RandomSource for Fixed {
        fn next_u128(&mut self) -> u128 {
            self.0.remove(0)
        }
    }
    let value = Fp31::truncate_from(7);
    let shares = value.share_with(&mut Fixed(vec![40, 5]));
    // 40 is cut down to 9; the third part makes up the difference to 7.
    let nine = Fp31::truncate_from(9);
    let five = Fp31::truncate_from(5);
    let rest = Fp31::truncate_from(24);
    assert_eq!(
        [
            SemiHonestAdditiveShare::new(nine, five),
            SemiHonestAdditiveShare::new(five, rest),
            SemiHonestAdditiveShare::new(rest, nine),
        ],
        shares
    );
}

#[test]
fn negating_twice_gives_the_value_back() {
    for v in 0..31_u128 {
        let a = Fp31::truncate_from(v);
        assert_eq!(a, -(-a));
        assert_eq!(Fp31::zero(), a + (-a));
    }
    let mut rng = Seeded::seed_from_u64(5);
    for _ in 0..50 {
        let a = Fp32BitPrime::truncate_from(rng.next_u128());
        assert_eq!(a, -(-a));
        let g = Gf32Bit::truncate_from(rng.next_u128());
        assert_eq!(g, -(-g));
    }
    assert_eq!(Gf2::one(), -(-Gf2::one()));
    assert_eq!(Gf2::zero(), -(-Gf2::zero()));

    let share = AdditiveShare::new(
        SemiHonestAdditiveShare::new(Fp31::truncate_from(3), Fp31::truncate_from(0)),
        SemiHonestAdditiveShare::new(Fp31::truncate_from(30), Fp31::truncate_from(17)),
    );
    let negated = -share;
    assert_eq!(
        &SemiHonestAdditiveShare::new(Fp31::truncate_from(28), Fp31::truncate_from(0)),
        negated.x().access_without_downgrade()
    );
    assert_eq!(
        &SemiHonestAdditiveShare::new(Fp31::truncate_from(1), Fp31::truncate_from(14)),
        negated.rx()
    );
    assert_eq!(share, -negated);

    let bits = AdditiveShare::new(
        SemiHonestAdditiveShare::new(Gf2::one(), Gf2::zero()),
        SemiHonestAdditiveShare::new(Gf32Bit::truncate_from(0xdead), Gf32Bit::truncate_from(7)),
    );
    assert_eq!(bits, -(-bits));
}
