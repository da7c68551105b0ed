use p1::memory::{mem_loader, MemError};
use p1::text::{parse_u8, split_whitespace};

#[test]
fn snapshot_too_big_is_refused() {
    let mut target = vec![0u8; 256];
    let contents = vec![1u8; 257];
    assert_eq!(mem_loader("big.ram", &contents, &mut target), Err(MemError::InvalidDataSize("big.ram".to_string())));
    assert!(target.iter().all(|b| *b == 0));
}

#[test]
fn snapshot_is_copied_to_the_start() {
    let mut target = vec![9u8; 256];
    assert_eq!(mem_loader("a.ram", &[1, 2, 3], &mut target), Ok(3));
    assert_eq!(&target[..4], &[1, 2, 3, 9]);
    let mut small = vec![0u8; 2];
    assert_eq!(mem_loader("a.ram", &[1, 2, 3], &mut small), Ok(2));
    assert_eq!(small, vec![1, 2]);
    let full = vec![7u8; 256];
    assert_eq!(mem_loader("full.ram", &full, &mut target), Ok(256));
    assert_eq!(target, full);
}

#[test]
fn parse_u8_cases() {
    let p = |s: &str| parse_u8(&s.chars().collect::<Vec<char>>());
    assert_eq!(p("0"), Some(0));
    assert_eq!(p("255"), Some(255));
    assert_eq!(p("+12"), Some(12));
    assert_eq!(p("000255"), Some(255));
    assert_eq!(p("256"), None);
    assert_eq!(p("99999999999"), None);
    assert_eq!(p(""), None);
    assert_eq!(p("+"), None);
    assert_eq!(p("-1"), None);
    assert_eq!(p("1a"), None);
}

#[test]
fn words_are_split_on_unicode_whitespace() {
    let w = split_whitespace(&"  LD\u{00A0}R1\t\u{3000}x ".chars().collect::<Vec<char>>());
    let w: Vec<String> = w.iter().map(|c| c.iter().collect()).collect();
    assert_eq!(w, vec!["LD", "R1", "x"]);
}
