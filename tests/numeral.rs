use kalendarium::{ad_romanum, OutOfRangeError, RomanNumeral, MAX, MIN};

#[test]
fn test_roman_numeral_new() {
    assert_eq!(RomanNumeral::new(0), Ok(RomanNumeral(0_u32)));
    assert_eq!(RomanNumeral::new(1), Ok(RomanNumeral(1_u32)));
    assert_eq!(RomanNumeral::new(1_u8.into()), Ok(RomanNumeral(1_u32)));
    assert_eq!(RomanNumeral::new(1_u32), Ok(RomanNumeral(1_u32)));
    assert_eq!(RomanNumeral::new(42), Ok(RomanNumeral(42_u32)));
    assert_eq!(RomanNumeral::new(616), Ok(RomanNumeral(616_u32)));
    assert_eq!(RomanNumeral::new(49_999), Ok(RomanNumeral(49_999_u32)));
    assert_eq!(RomanNumeral::new(99_999), Ok(RomanNumeral(99_999_u32)));
    assert_eq!(RomanNumeral::new(999_999), Ok(RomanNumeral(999_999_u32)));
    assert_eq!(RomanNumeral::new(MAX), Ok(RomanNumeral(4_999_999_u32)));
    assert!(matches!(RomanNumeral::new(5_000_000), Err(OutOfRangeError)));
    assert!(matches!(RomanNumeral::new(u32::MAX), Err(OutOfRangeError)));
}

#[test]
fn test_try_from_one() {
    assert_eq!(RomanNumeral::try_from(1_u8), Ok(RomanNumeral(1_u32)));
    assert_eq!(RomanNumeral::try_from(1_u16), Ok(RomanNumeral(1_u32)));
    assert_eq!(RomanNumeral::try_from(1_u32), Ok(RomanNumeral(1_u32)));
    assert_eq!(RomanNumeral::try_from(1_u64), Ok(RomanNumeral(1_u32)));
    assert_eq!(RomanNumeral::try_from(1_u128), Ok(RomanNumeral(1_u32)));
    assert_eq!(RomanNumeral::try_from(1_usize), Ok(RomanNumeral(1_u32)));
    assert_eq!(RomanNumeral::try_from(1_i8), Ok(RomanNumeral(1_u32)));
    assert_eq!(RomanNumeral::try_from(1_i16), Ok(RomanNumeral(1_u32)));
    assert_eq!(RomanNumeral::try_from(1_i32), Ok(RomanNumeral(1_u32)));
    assert_eq!(RomanNumeral::try_from(1_i64), Ok(RomanNumeral(1_u32)));
    assert_eq!(RomanNumeral::try_from(1_i128), Ok(RomanNumeral(1_u32)));
}

#[test]
fn test_roman_numeral_to_string() {
    assert_eq!(RomanNumeral::new(0).unwrap().to_uppercase(), "N");
    assert_eq!(RomanNumeral::new(1).unwrap().to_uppercase(), "I");
    assert_eq!(RomanNumeral::new(616).unwrap().to_uppercase(), "DCXVI");
    assert_eq!(RomanNumeral::new(1984).unwrap().to_uppercase(), "MCMLXXXIV");
}

#[test]
fn zero_is_nulla_in_both_cases() {
    assert_eq!(RomanNumeral(0).to_uppercase(), "N");
    assert_eq!(RomanNumeral(0).to_lowercase(), "N");
    assert_eq!(MIN, 0);
}

#[test]
fn boundary_numerals() {
    assert_eq!(RomanNumeral(616).to_uppercase(), "DCXVI");
    assert_eq!(RomanNumeral(1984).to_uppercase(), "MCMLXXXIV");
    assert_eq!(RomanNumeral(999).to_uppercase(), "CMXCIX");
    assert_eq!(RomanNumeral(3999).to_uppercase(), "MMMCMXCIX");
    assert_eq!(RomanNumeral(4000).to_uppercase(), "I\u{305}V\u{305}");
    assert_eq!(RomanNumeral(9999).to_uppercase(), "I\u{305}X\u{305}CMXCIX");
    assert_eq!(RomanNumeral(8000).to_uppercase(), "V\u{305}MMM");
    assert_eq!(RomanNumeral(14_000).to_uppercase(), "X\u{305}I\u{305}V\u{305}");
    assert_eq!(
        RomanNumeral(4_999_999).to_uppercase(),
        "M\u{305}M\u{305}M\u{305}M\u{305}C\u{305}M\u{305}X\u{305}C\u{305}I\u{305}X\u{305}CMXCIX"
    );
    assert!(matches!(RomanNumeral::new(5_000_000), Err(OutOfRangeError)));
    assert!(matches!(RomanNumeral::try_from(-1_i32), Err(OutOfRangeError)));
    assert!(matches!(RomanNumeral::try_from(5_000_000_u64), Err(OutOfRangeError)));
    assert_eq!(RomanNumeral::try_from(4_999_999_i64), Ok(RomanNumeral(4_999_999)));
}

#[test]
fn lowercase_numerals() {
    assert_eq!(RomanNumeral(616).to_lowercase(), "dcxui");
    assert_eq!(RomanNumeral(1984).to_lowercase(), "mcmlxxxiu");
    assert_eq!(RomanNumeral(4000).to_lowercase(), "i\u{305}u\u{305}");
    assert_eq!(RomanNumeral(49).to_lowercase(), "xlix");
}

#[test]
fn macron_numerals() {
    assert_eq!(ad_romanum(0), "");
    assert_eq!(ad_romanum(-12), "");
    assert_eq!(ad_romanum(1984), "MCMLXXXIV");
    assert_eq!(ad_romanum(4000), "I\u{304}V\u{304}");
    assert_eq!(ad_romanum(9000), "I\u{304}X\u{304}");
    assert_eq!(ad_romanum(2_500_000), "M\u{304}M\u{304}D\u{304}");
}

#[test]
fn as_u32_gives_the_value() {
    assert_eq!(RomanNumeral::new(42).unwrap().as_u32(), 42);
}

/// Reads a numeral back by the subtractive rule.
fn read(s: &str) -> i64 {
    let chars: Vec<char> = s.chars().collect();
    let mut values = Vec::new();
    let mut i = 0;
    while i < chars.len() {
        let v: i64 = match chars[i] {
            'I' | 'i' => 1,
            'V' | 'v' | 'u' => 5,
            'X' | 'x' => 10,
            'L' | 'l' => 50,
            'C' | 'c' => 100,
            'D' | 'd' => 500,
            'M' | 'm' => 1000,
            _ => 0,
        };
        if i + 1 < chars.len() && (chars[i + 1] == '\u{305}' || chars[i + 1] == '\u{304}') {
            values.push(v * 1000);
            i += 2;
        } else {
            values.push(v);
            i += 1;
        }
    }
    let mut total = 0;
    for j in 0..values.len() {
        if j + 1 < values.len() && values[j] < values[j + 1] {
            total -= values[j];
        } else {
            total += values[j];
        }
    }
    total
}

#[test]
fn numerals_read_back() {
    for v in 1..=20_000_u32 {
        assert_eq!(read(&RomanNumeral(v).to_uppercase()), v as i64);
        assert_eq!(read(&RomanNumeral(v).to_lowercase()), v as i64);
    }
    for v in [49_999_u32, 99_999, 444_444, 999_999, 1_000_000, 3_888_888, 4_000_000, 4_999_999] {
        assert_eq!(read(&RomanNumeral(v).to_uppercase()), v as i64);
        assert_eq!(read(&ad_romanum(v as isize)), v as i64);
    }
}

#[test]
fn no_sign_repeated_four_times() {
    for v in (1..4_000_000_u32).step_by(997) {
        let s = RomanNumeral(v).to_uppercase();
        let chars: Vec<char> = s.chars().collect();
        let mut signs: Vec<String> = Vec::new();
        let mut i = 0;
        while i < chars.len() {
            if i + 1 < chars.len() && chars[i + 1] == '\u{305}' {
                signs.push(chars[i..i + 2].iter().collect());
                i += 2;
            } else {
                signs.push(chars[i..i + 1].iter().collect());
                i += 1;
            }
        }
        for j in 3..signs.len() {
            assert!(!(signs[j] == signs[j - 1] && signs[j] == signs[j - 2] && signs[j] == signs[j - 3]));
        }
    }
    // four millions need four barred Ms
    assert!(RomanNumeral(4_000_000).to_uppercase().starts_with("M\u{305}M\u{305}M\u{305}M\u{305}"));
}
