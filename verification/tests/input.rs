use raw_ipa::cli::playbook::input::{parse_u128, InputItem, InputSource};
use raw_ipa::ff::{Field, Fp31, Fp32BitPrime};
use raw_ipa::secret_sharing::IntoShares;
use raw_ipa::test_fixture::Reconstruct;

#[test]
fn from_str() {
    assert_eq!(Fp31::from(1_u128), Fp31::from_str("1"));
    assert_eq!(Fp32BitPrime::from(0_u128), Fp32BitPrime::from_str("0"));
    assert_eq!(6_u64, u64::from_str("6"));
}

#[test]
#[should_panic]
fn parse_negative() {
    Fp31::from_str("-1");
}

#[test]
#[should_panic]
fn parse_empty() {
    Fp31::from_str("");
}

#[test]
fn tuple() {
    let input = "20,27";
    let tp = <(Fp31, Fp31)>::from_str(input);
    let shares = tp.share();
    assert_eq!(
        (Fp31::from(20_u128), Fp31::from(27_u128)),
        shares.reconstruct()
    );
}

#[test]
#[should_panic]
fn tuple_parse_error() {
    <(Fp31, Fp31)>::from_str("20,");
}

#[test]
fn parse_u128_accepts_digits_and_a_plus_sign() {
    assert_eq!(Some(0), parse_u128("0"));
    assert_eq!(Some(7), parse_u128("007"));
    assert_eq!(Some(42), parse_u128("+42"));
    assert_eq!(Some(1234567890123456789012345678901234567), parse_u128("1234567890123456789012345678901234567"));
}

#[test]
fn parse_u128_knows_its_limit() {
    assert_eq!(Some(u128::MAX), parse_u128("340282366920938463463374607431768211455"));
    assert_eq!(None, parse_u128("340282366920938463463374607431768211456"));
    assert_eq!(None, parse_u128("3402823669209384634633746074317682114550"));
}

#[test]
fn parse_u128_refuses_everything_else() {
    assert_eq!(None, parse_u128(""));
    assert_eq!(None, parse_u128("+"));
    assert_eq!(None, parse_u128("-1"));
    assert_eq!(None, parse_u128("1 "));
    assert_eq!(None, parse_u128(" 1"));
    assert_eq!(None, parse_u128("1,2"));
    assert_eq!(None, parse_u128("12a"));
    assert_eq!(None, parse_u128("++1"));
    assert_eq!(None, parse_u128("\u{0661}"));
}

#[test]
fn field_items_are_reduced() {
    assert_eq!(Some(Fp31::truncate_from(2)), Fp31::try_from_str("33"));
    assert_eq!(Some(0), Fp31::try_from_str("31").map(|v| v.as_u128()));
    assert_eq!(Some(4), Fp32BitPrime::try_from_str("4294967295").map(|v| v.as_u128()));
    assert_eq!(None, Fp31::try_from_str("x"));
}

#[test]
fn u64_items_know_their_limit() {
    assert_eq!(Some(u64::MAX), u64::try_from_str("18446744073709551615"));
    assert_eq!(None, u64::try_from_str("18446744073709551616"));
    assert_eq!(None, u64::try_from_str(""));
}

#[test]
fn pairs_stop_at_the_second_comma() {
    assert_eq!(Some((1_u64, 2_u64)), <(u64, u64)>::try_from_str("1,2"));
    assert_eq!(Some((1_u64, 2_u64)), <(u64, u64)>::try_from_str("1,2,zzz"));
    assert_eq!(None, <(u64, u64)>::try_from_str("12"));
    assert_eq!(None, <(u64, u64)>::try_from_str(",2"));
    assert_eq!(None, <(u64, u64)>::try_from_str("1,"));
    assert_eq!(None, <(u64, u64)>::try_from_str("1,,2"));
}

#[test]
fn multiline() {
    let expected = vec![(1_u128, 2_u128), (3, 4)];

    let mut source = InputSource::from_static_str("1,2\n3,4");
    let actual = source
        .iter::<(Fp31, Fp31)>()
        .into_iter()
        .map(|(l, r)| (l.as_u128(), r.as_u128()))
        .collect::<Vec<_>>();

    assert_eq!(expected, actual);
}

#[test]
fn lines_end_with_a_line_feed_with_or_without_a_carriage_return() {
    let mut source = InputSource::from_static_str("1\r\n2\n\n3\n");
    assert_eq!(4, source.remaining());
    assert_eq!(None, source.try_iter::<u64>());
    // Nothing was read: the empty line is still there.
    assert_eq!(4, source.remaining());

    let mut source = InputSource::from_static_str("1\r\n2\n3\n");
    assert_eq!(Some(vec![1_u64, 2, 3]), source.try_iter::<u64>());
    assert_eq!(0, source.remaining());
    assert_eq!(Some(vec![]), source.try_iter::<u64>());

    // A carriage return that no line feed follows stays in its line.
    let mut source = InputSource::from_static_str("7\r");
    assert_eq!(None, source.try_iter::<u64>());

    assert_eq!(0, InputSource::from_static_str("").remaining());
    assert_eq!(1, InputSource::from_static_str("\n").remaining());
    assert_eq!(2, InputSource::from_static_str("\n\r").remaining());
    assert_eq!(1, InputSource::from_static_str("\r\n").remaining());
}

#[test]
fn lines_given_one_by_one_are_read_in_order() {
    let mut source =
        InputSource::from_lines(vec!["10".to_string(), "+20".to_string(), "30".to_string()]);
    assert_eq!(3, source.remaining());
    let items: Vec<Fp31> = source.iter();
    assert_eq!(vec![10, 20, 30], items.iter().map(Field::as_u128).collect::<Vec<_>>());
    assert_eq!(0, source.remaining());
}
