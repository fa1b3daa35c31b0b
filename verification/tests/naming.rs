use zillion::{HundredGroupNamer, NameEngine, ParseError, PowerOfTenEngine, ZillionPrefixBuilder,
    ZillionSuffixComposer};

#[test]
fn hundred_group_boundary_values() {
    let table: [(u16, &str); 13] = [
        (0, ""),
        (1, "one"),
        (10, "ten"),
        (11, "eleven"),
        (19, "nineteen"),
        (20, "twenty"),
        (21, "twenty one"),
        (99, "ninety nine"),
        (100, "one hundred"),
        (101, "one hundred one"),
        (199, "one hundred ninety nine"),
        (900, "nine hundred"),
        (999, "nine hundred ninety nine"),
    ];
    for (n, expected) in table {
        assert_eq!(HundredGroupNamer::name(n), expected, "value {}", n);
    }
}

#[test]
fn hundred_group_empty_iff_zero() {
    for n in 0u16..1000 {
        assert_eq!(HundredGroupNamer::name(n).is_empty(), n == 0);
    }
}

#[test]
fn prefix_small_indices() {
    assert_eq!(ZillionPrefixBuilder::prefix(0), "nilli");
    assert_eq!(ZillionPrefixBuilder::prefix(1), "milli");
    assert_eq!(ZillionPrefixBuilder::prefix(2), "billi");
    assert_eq!(ZillionPrefixBuilder::prefix(3), "trilli");
}

#[test]
fn prefix_euphonic_s_after_tre() {
    assert_eq!(ZillionPrefixBuilder::prefix(23), "tresvigintilli");
    assert_eq!(ZillionPrefixBuilder::prefix(33), "trestrigintilli");
    assert_eq!(ZillionPrefixBuilder::prefix(83), "tresoctogintilli");
    assert_eq!(ZillionPrefixBuilder::prefix(103), "trescentilli");
    // the tens digit 6 takes no insertion; the 's' here comes from "sexaginta"
    assert_eq!(ZillionPrefixBuilder::prefix(63), "tresexagintilli");
    // the hundreds path does not include the digit 2 in the "s" set
    assert_eq!(ZillionPrefixBuilder::prefix(203), "treducentilli");
}

#[test]
fn prefix_euphonic_s_and_x_after_se() {
    assert_eq!(ZillionPrefixBuilder::prefix(26), "sesvigintilli");
    assert_eq!(ZillionPrefixBuilder::prefix(36), "sestrigintilli");
    assert_eq!(ZillionPrefixBuilder::prefix(86), "sexoctogintilli");
    assert_eq!(ZillionPrefixBuilder::prefix(106), "sexcentilli");
    assert_eq!(ZillionPrefixBuilder::prefix(16), "sedecilli");
}

#[test]
fn prefix_euphonic_n_and_m() {
    assert_eq!(ZillionPrefixBuilder::prefix(17), "septendecilli");
    assert_eq!(ZillionPrefixBuilder::prefix(27), "septemvigintilli");
    assert_eq!(ZillionPrefixBuilder::prefix(87), "septemoctogintilli");
    assert_eq!(ZillionPrefixBuilder::prefix(19), "novendecilli");
    assert_eq!(ZillionPrefixBuilder::prefix(29), "novemvigintilli");
    assert_eq!(ZillionPrefixBuilder::prefix(107), "septencentilli");
    assert_eq!(ZillionPrefixBuilder::prefix(807), "septemoctingentilli");
}

#[test]
fn compose_small_group_indices() {
    assert_eq!(ZillionSuffixComposer::compose(0), "");
    assert_eq!(ZillionSuffixComposer::compose(1), "thousand");
    assert_eq!(ZillionSuffixComposer::compose(2), "million");
    assert_eq!(ZillionSuffixComposer::compose(3), "billion");
    assert_eq!(ZillionSuffixComposer::compose(4), "trillion");
}

#[test]
fn compose_chained_group_index() {
    // group index 1000001 reduces to chain index 1000000
    assert_eq!(ZillionSuffixComposer::compose(1000001), "millinillinillion");
    assert_eq!(ZillionSuffixComposer::compose(1001), "millinillion");
}

#[test]
fn full_name_zero_forms() {
    assert_eq!(NameEngine::full_name("0").unwrap(), "zero");
    assert_eq!(NameEngine::full_name("000").unwrap(), "zero");
    // no digit is nonzero, so the name is "zero"
    assert_eq!(NameEngine::full_name("").unwrap(), "zero");
}

#[test]
fn full_name_ignores_leading_zeros() {
    assert_eq!(
        NameEngine::full_name("007").unwrap(),
        NameEngine::full_name("7").unwrap()
    );
    assert_eq!(NameEngine::full_name("007").unwrap(), "seven");
    assert_eq!(
        NameEngine::full_name("0001000").unwrap(),
        NameEngine::full_name("1000").unwrap()
    );
}

#[test]
fn full_name_examples() {
    assert_eq!(NameEngine::full_name("42").unwrap(), "forty two");
    assert_eq!(NameEngine::full_name("104").unwrap(), "one hundred four");
    assert_eq!(NameEngine::full_name("1000000").unwrap(), "one million");
    assert_eq!(NameEngine::full_name("7000000000").unwrap(), "seven billion");
    assert_eq!(
        NameEngine::full_name("20000000000000").unwrap(),
        "twenty trillion"
    );
}

#[test]
fn full_name_mixed_groups() {
    assert_eq!(
        NameEngine::full_name("1007234").unwrap(),
        "one million seven thousand two hundred thirty four"
    );
    assert_eq!(
        NameEngine::full_name("19000000042").unwrap(),
        "nineteen billion forty two"
    );
}

#[test]
fn full_name_spacing() {
    for digits in ["5", "50", "500", "5000", "1000000", "900000000001", "0"] {
        let name = NameEngine::full_name(digits).unwrap();
        assert!(!name.is_empty());
        assert!(!name.starts_with(' '));
        assert!(!name.ends_with(' '));
        assert!(!name.contains("  "), "double space in {:?}", name);
    }
}

#[test]
fn full_name_rejects_non_digits() {
    assert_eq!(NameEngine::full_name("12a"), Err(ParseError::InvalidDigit));
    assert_eq!(NameEngine::full_name("-5"), Err(ParseError::InvalidDigit));
    assert_eq!(NameEngine::full_name("4 2"), Err(ParseError::InvalidDigit));
    // fullwidth digits are not ASCII digits
    assert_eq!(
        NameEngine::full_name("\u{FF14}\u{FF12}"),
        Err(ParseError::InvalidDigit)
    );
}

#[test]
fn power_of_ten_small_exponents() {
    assert_eq!(PowerOfTenEngine::power_of_ten("0").unwrap(), "One");
    assert_eq!(PowerOfTenEngine::power_of_ten("1").unwrap(), "Ten");
    assert_eq!(PowerOfTenEngine::power_of_ten("2").unwrap(), "One hundred");
    assert_eq!(PowerOfTenEngine::power_of_ten("3").unwrap(), "One thousand");
    assert_eq!(PowerOfTenEngine::power_of_ten("4").unwrap(), "Ten thousand");
    assert_eq!(PowerOfTenEngine::power_of_ten("6").unwrap(), "One million");
    assert_eq!(PowerOfTenEngine::power_of_ten("9").unwrap(), "One billion");
}

#[test]
fn power_of_ten_large_exponents() {
    // a googol
    assert_eq!(
        PowerOfTenEngine::power_of_ten("100").unwrap(),
        "Ten duotrigintillion"
    );
    // the exponent needs chained prefixes: 10^(3*1000001)
    assert_eq!(
        PowerOfTenEngine::power_of_ten("3000003").unwrap(),
        "One millinillinillion"
    );
}

#[test]
fn power_of_ten_agrees_with_full_name() {
    let digits = "1000000";
    let by_digits = NameEngine::full_name(digits).unwrap();
    let by_exponent = PowerOfTenEngine::power_of_ten("6").unwrap();
    assert_eq!(by_exponent.to_lowercase(), by_digits);
}

#[test]
fn power_of_ten_rejects_bad_exponents() {
    assert_eq!(
        PowerOfTenEngine::power_of_ten(""),
        Err(ParseError::InvalidExponent)
    );
    assert_eq!(
        PowerOfTenEngine::power_of_ten("1e5"),
        Err(ParseError::InvalidExponent)
    );
    assert_eq!(
        PowerOfTenEngine::power_of_ten("-3"),
        Err(ParseError::InvalidExponent)
    );
}
