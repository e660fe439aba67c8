use webol_cli::error::ParseIntErrorKind;
use webol_cli::text::{parse_u64, push_two_digits, split_char, str_eq};

#[test]
fn split_like_std() {
    for s in ["", "_", "a", "a_b", "eta_12_uuid", "__x_", "ä_ö"] {
        let ours = split_char(s, '_');
        let std: Vec<String> = s.split('_').map(|p| p.to_string()).collect();
        assert_eq!(ours, std);
    }
}

#[test]
fn str_eq_compares_text() {
    assert!(str_eq("eta", "eta"));
    assert!(!str_eq("eta", "et"));
    assert!(!str_eq("eta", "etb"));
    assert!(str_eq("", ""));
}

#[test]
fn parse_like_std() {
    let cases = [
        "0", "42", "+7", "", "+", "-1", "12a", "a12", " 1", "1 ",
        "18446744073709551615", "18446744073709551616", "99999999999999999999x",
        "1844674407370955161x", "007",
    ];
    for s in cases {
        let ours = parse_u64(s);
        let std = s.parse::<u64>();
        match (ours, std) {
            (Ok(a), Ok(b)) => assert_eq!(a, b, "{s}"),
            (Err(k), Err(e)) => {
                let expected = match e.kind() {
                    std::num::IntErrorKind::Empty => ParseIntErrorKind::Empty,
                    std::num::IntErrorKind::InvalidDigit => ParseIntErrorKind::InvalidDigit,
                    std::num::IntErrorKind::PosOverflow => ParseIntErrorKind::PosOverflow,
                    _ => panic!("unexpected kind for {s}"),
                };
                assert_eq!(k, expected, "{s}");
            }
            (a, b) => panic!("{s}: {a:?} vs {b:?}"),
        }
    }
}

#[test]
fn parse_exact_values() {
    assert_eq!(parse_u64("3661"), Ok(3661));
    assert_eq!(parse_u64("+0"), Ok(0));
    assert_eq!(parse_u64(""), Err(ParseIntErrorKind::Empty));
    assert_eq!(parse_u64("x"), Err(ParseIntErrorKind::InvalidDigit));
    assert_eq!(parse_u64("99999999999999999999"), Err(ParseIntErrorKind::PosOverflow));
}

#[test]
fn two_digits_pad_with_zero() {
    let mut s = String::from("t=");
    push_two_digits(&mut s, 7);
    push_two_digits(&mut s, 42);
    push_two_digits(&mut s, 0);
    assert_eq!(s, "t=074200");
}
