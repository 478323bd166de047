use bencher_core::literal::{check_commas, check_literal, strip_commas, Literal};
use bencher_core::text::{same, split, starts_with, words, Separator};

fn read(word: &str) -> Option<String> {
    Literal::read(word.as_bytes()).map(|literal| String::from_utf8(literal.text().clone()).unwrap())
}

#[test]
fn decimal_literals_are_recognised() {
    for valid in ["0", "7", "-7", "007", "1.5", "-0.0", "1e5", "1E5", "1e+5", "1e-5", "12.50e-07", "88.0"] {
        assert!(check_literal(valid.as_bytes()), "{}", valid);
        assert_eq!(read(valid), Some(valid.to_string()));
        assert!(valid.parse::<f64>().is_ok());
    }
    for invalid in [
        "", "-", "+1", ".5", "5.", "1e", "1e+", "1.e5", "e5", "1.5.2", "1e5e5", "1e5.5", " 1", "1 ",
        "0x10", "NaN", "nan", "inf", "-inf", "Infinity", "1_000", "--1", "1-", "1,000",
    ] {
        assert!(!check_literal(invalid.as_bytes()), "{}", invalid);
        assert_eq!(Literal::exact(invalid.as_bytes().to_vec()), None);
    }
}

#[test]
fn grouping_commas_are_dropped() {
    assert_eq!(read("1,234"), Some("1234".to_string()));
    assert_eq!(read("1,234,567.89"), Some("1234567.89".to_string()));
    assert_eq!(read("-1,0"), Some("-10".to_string()));
    assert_eq!(read("12,34e3"), Some("1234e3".to_string()));
    assert_eq!(strip_commas(b",1,,2,"), b"12".to_vec());
    assert!(check_commas(b"1,2"));
    for misplaced in [",1", "1,", "1,,2", "-,1", "1.2,3", "1e1,0", "1,.5", "1.,5", ","] {
        assert!(!check_commas(misplaced.as_bytes()), "{}", misplaced);
        assert_eq!(read(misplaced), None, "{}", misplaced);
    }
}

#[test]
fn a_literal_keeps_its_text() {
    let literal = Literal::exact(b"12.50e-07".to_vec()).unwrap();
    assert_eq!(literal.text(), &b"12.50e-07".to_vec());
    assert_eq!(literal.clone(), literal);
}

#[test]
fn text_is_cut_at_every_separator() {
    let lines = split(b"a\n\nbc\n", Separator::Line);
    assert_eq!(lines, vec![b"a".to_vec(), b"".to_vec(), b"bc".to_vec(), b"".to_vec()]);
    assert_eq!(split(b"", Separator::Line), vec![Vec::<u8>::new()]);
    assert_eq!(split(b"a b", Separator::Line), vec![b"a b".to_vec()]);
    assert_eq!(
        split(b" a\t\tb\r", Separator::Blank),
        vec![b"".to_vec(), b"a".to_vec(), b"".to_vec(), b"b".to_vec(), b"".to_vec()]
    );
}

#[test]
fn words_are_the_runs_between_blanks() {
    assert_eq!(words(b"  test  a\t...\r"), vec![b"test".to_vec(), b"a".to_vec(), b"...".to_vec()]);
    assert!(words(b"").is_empty());
    assert!(words(b" \t \r").is_empty());
    assert_eq!(words(b"one"), vec![b"one".to_vec()]);
}

#[test]
fn byte_strings_are_compared() {
    assert!(same(b"abc", b"abc"));
    assert!(same(b"", b""));
    assert!(!same(b"abc", b"abd"));
    assert!(!same(b"abc", b"ab"));
    assert!(starts_with(b"Benchmark", b"Bench"));
    assert!(starts_with(b"Bench", b"Bench"));
    assert!(starts_with(b"Bench", b""));
    assert!(!starts_with(b"Ben", b"Bench"));
    assert!(!starts_with(b"bench", b"Bench"));
}
