use booru_ingest::pairs::{parse_number, parse_number_pairs, parse_pair, LineFault, PairsError};

fn chars(s: &str) -> Vec<char> {
    s.chars().collect()
}

#[test]
fn a_line_with_two_numbers_is_a_pair() {
    assert_eq!(parse_number_pairs("5 9"), Ok(vec![(5, 9)]));
    assert_eq!(parse_number_pairs("5 9\n10\t11\r\n  1   2  \n"), Ok(vec![(5, 9), (10, 11), (1, 2)]));
    assert_eq!(parse_number_pairs(""), Ok(vec![]));
}

#[test]
fn a_line_with_one_or_three_numbers_fails_the_whole_list() {
    let wrong = |line| Err(PairsError { line, fault: LineFault::WrongCount });
    assert_eq!(parse_number_pairs("5"), wrong(0));
    assert_eq!(parse_number_pairs("5 9 1"), wrong(0));
    assert_eq!(parse_number_pairs("1 2\n5\n3 4"), wrong(1));
    assert_eq!(parse_number_pairs("1 2\n\n3 4"), wrong(1));
}

#[test]
fn words_that_are_no_numbers() {
    let first = |line| Err(PairsError { line, fault: LineFault::FirstNumber });
    let second = |line| Err(PairsError { line, fault: LineFault::SecondNumber });
    assert_eq!(parse_number_pairs("a 1"), first(0));
    assert_eq!(parse_number_pairs("1 b"), second(0));
    assert_eq!(parse_number_pairs("1 2\n3 -4"), second(1));
    assert_eq!(parse_number_pairs("x y\n3"), first(0));
    assert_eq!(parse_number_pairs("1 4294967296"), second(0));
    assert_eq!(parse_number_pairs("4294967295 0"), Ok(vec![(4294967295, 0)]));
}

#[test]
fn parse_number_agrees_with_std() {
    for s in [
        "", "0", "007", "+5", "+", "-5", "++5", "5+", "12a", "4294967295", "4294967296",
        "99999999999999999999999", "1_000", " 1", "\u{661}",
    ] {
        assert_eq!(parse_number(&chars(s)), s.parse::<u32>().ok(), "{:?}", s);
    }
}

#[test]
fn parse_pair_of_a_line() {
    assert_eq!(parse_pair(&chars(" 3  4 ")), Ok((3, 4)));
    assert_eq!(parse_pair(&chars("")), Err(LineFault::WrongCount));
    assert_eq!(parse_pair(&chars("3 x")), Err(LineFault::SecondNumber));
    assert_eq!(parse_pair(&chars("x x")), Err(LineFault::FirstNumber));
}
