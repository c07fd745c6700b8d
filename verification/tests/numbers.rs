use lightspeed::numbers::{Double, Single};

fn chars(text: &str) -> Vec<char> {
    text.chars().collect()
}

/// A row of bits that looks random and is always the same.
fn noise(count: usize) -> Vec<u64> {
    let mut state: u64 = 0x9E37_79B9_7F4A_7C15;
    (0..count)
        .map(|_| {
            state ^= state << 13;
            state ^= state >> 7;
            state ^= state << 17;
            state
        })
        .collect()
}

#[test]
fn a_double_is_written_as_the_shortest_number_that_stands_for_it() {
    let mut values = vec![
        0.0, -0.0, 1.0, -1.0, 0.1, 0.3, 100.0, 1e21, 1e22, 1e23, 1.5, 123456.789, 5e-324, 2.5e-323,
        f64::MAX, f64::MIN_POSITIVE, 2.2250738585072011e-308, 1.7976931348623155e308,
        9007199254740992.0, 9007199254740993.0, 9007199254740994.0, 4503599627370496.5, 0.5, 0.25,
        1e-7, 3.14159, 1125899906842624.25, 1125899906842624.75, 1500000000000000.25,
        f64::INFINITY, f64::NEG_INFINITY, f64::NAN, 9.5367431640625e-7, 1e16, 1e15, 9.999e22,
    ];
    values.extend(noise(60).into_iter().map(f64::from_bits));
    values.extend(noise(60).into_iter().map(|bits| (bits >> 40) as f64 / 8.0));
    for x in values {
        let text = Double { bits: x.to_bits() }.to_text();
        assert_eq!(text, format!("{x}"));
        if x.is_finite() {
            assert_eq!(Double::parse(&chars(&text)).unwrap().bits, x.to_bits(), "{text}");
        }
    }
}

#[test]
fn a_number_stands_for_the_nearest_double() {
    for text in [
        "0", "-0", "1", "+1", ".5", "5.", "1e2", "1E-2", "0.1", "1e400", "-1e400", "1e-400",
        "9007199254740993", "9007199254740993.0000000000000000001", "2.4703282292062327e-324",
        "2.4703282292062328e-324", "4.9406564584124654e-324", "1.7976931348623157e308",
        "1.7976931348623159e308", "179769313486231580793728971405303415079934132710037826936173778980444968292764750946649017977587207096330286416692887910946555547851940402630657488671505820681908902000708383676273854845817711531764475730270069855571366959622842914819860834936475292719074168444365510704342711559699508093042880e0",
        "0.000000000000000000000000000000000000001e39", "123456789012345678901234567890",
        "1e999999999999999999999999999999999999999", "0e999999999999999999999999999999999999999",
        "1e-999999999999999999999999999999999999999", "2.2250738585072012e-308",
        "2.2250738585072011e-308", "8.5", "0.30000000000000004",
    ] {
        let expected: f64 = text.parse().unwrap();
        assert_eq!(Double::parse(&chars(text)).unwrap().bits, expected.to_bits(), "{text}");
    }
    for text in ["", ".", "-", "e5", "1e", "1.2.3", "inf", "NaN", "1x", "--1"] {
        assert!(Double::parse(&chars(text)).is_none(), "{text}");
    }
}

#[test]
fn whole_numbers_are_doubles_as_far_as_those_go() {
    for n in [0, 1, 9, 10, 255, 1000, 9007199254740991, 9007199254740993, u64::MAX] {
        let d = Double::nearest_to(n);
        assert_eq!(d.bits, (n as f64).to_bits());
        assert_eq!(d.as_u64(), n as f64 as u64);
        if n < 9007199254740992 {
            assert_eq!(d.to_text(), n.to_string(), "small ones are written with their digits");
        }
    }
    for x in [-3.5f64, 0.99, 1.99, 1e19, f64::INFINITY, f64::NAN, -0.0, 4503599627370496.5] {
        assert_eq!(Double { bits: x.to_bits() }.as_u64(), x.max(0.0) as u64);
    }
}

#[test]
fn doubles_compare_as_numbers() {
    let double = |x: f64| Double { bits: x.to_bits() };
    assert_eq!(double(0.0), double(-0.0));
    assert_eq!(double(f64::INFINITY), double(f64::INFINITY));
    assert!(double(f64::NAN) != double(f64::NAN));
    assert!(double(1.0) != double(-1.0));
    let single = |x: f32| Single { bits: x.to_bits() };
    assert_eq!(single(0.0), single(-0.0));
    assert!(single(f32::NAN) != single(f32::NAN));
    assert!(single(1.0) != single(1.5));
}

#[test]
fn a_single_is_written_with_three_places() {
    let mut values = vec![
        0.0f32, -0.0, 1.0, 0.0625, 0.1875, 0.3125, 0.0005, 0.0004, -0.0001, 123.4567, 1e10,
        f32::MAX, f32::MIN, f32::INFINITY, f32::NAN, 1e-45, 16777216.5, 0.9995, 9.9996, 999.9995,
    ];
    values.extend(noise(200).into_iter().map(|bits| f32::from_bits(bits as u32)));
    values.extend(noise(200).into_iter().map(|bits| (bits as u16) as f32 / 32.0));
    for x in values {
        let single = Single { bits: x.to_bits() };
        assert_eq!(single.to_text(), format!("{x:.3}"));
        let read = Single::parse_finite(&chars(&single.to_text()));
        if x.is_finite() {
            let expected: f32 = format!("{x:.3}").parse().unwrap();
            assert_eq!(read.unwrap().bits, expected.to_bits(), "{x}");
        } else {
            assert!(read.is_none());
        }
    }
}
