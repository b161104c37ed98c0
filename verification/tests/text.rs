use traffic_replay::text::{
    append_decimal, append_signed_decimal, append_two_digits, comes_before, rank, same_text, Rank,
};

#[test]
fn rank_is_the_order_of_strings() {
    let texts = ["", "a", "ab", "abc", "b", "B", "10", "2", "é", "e", "\u{10ffff}", "~", "a\u{0}"];
    for a in texts {
        for b in texts {
            let expected = if a < b {
                Rank::Before
            } else if a == b {
                Rank::Same
            } else {
                Rank::After
            };
            assert_eq!(rank(a, b), expected, "{a:?} against {b:?}");
            assert_eq!(comes_before(a, b), a < b);
            assert_eq!(same_text(a, b), a == b);
        }
    }
}

#[test]
fn prefix_comes_before_what_it_begins() {
    assert_eq!(rank("2024", "20240504"), Rank::Before);
    assert_eq!(rank("20240504", "2024"), Rank::After);
    assert_eq!(rank("", "x"), Rank::Before);
    assert_eq!(rank("", ""), Rank::Same);
}

#[test]
fn decimal_notation() {
    for n in [0u64, 1, 9, 10, 11, 99, 100, 101, 2024, 1_000_000, 18_446_744_073_709_551_615] {
        let mut out = "n=".to_owned();
        append_decimal(&mut out, n);
        assert_eq!(out, format!("n={n}"));
    }
}

#[test]
fn signed_decimal_notation() {
    for n in [0i64, 1, -1, 9, -9, 10, -10, 2024, -2024, i64::MAX, i64::MIN, i64::MIN + 1] {
        let mut out = String::new();
        append_signed_decimal(&mut out, n);
        assert_eq!(out, format!("{n}"));
    }
}

#[test]
fn two_digit_notation() {
    for n in [0u64, 1, 9, 10, 12, 31, 99, 100, 12_345] {
        let mut out = "-".to_owned();
        append_two_digits(&mut out, n);
        assert_eq!(out, format!("-{n:02}"));
    }
}
