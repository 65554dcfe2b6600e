use std::collections::HashSet;

use zond_daemon::id::{encode, mint, name_at, Minter};

const ALPHABET: &[u8] = b"0123456789ABCDEFGHJKMNPQRSTVWXYZ";

/// Two scans started together are still two scans.
#[test]
fn no_two_names_are_the_same() {
    let mut minter = Minter::new();
    let names: HashSet<String> = (0..10_000).map(|_| mint(&mut minter)).collect();

    assert_eq!(names.len(), 10_000, "a name was handed out twice");
}

/// Every name is the same width, so a column of them lines up.
#[test]
fn every_name_is_thirteen_characters_of_the_alphabet() {
    let mut minter = Minter::new();
    for _ in 0..100 {
        let name = mint(&mut minter);

        assert_eq!(name.len(), 13, "{name}");
        assert!(
            name.bytes().all(|c| ALPHABET.contains(&c)),
            "{name} is not in the alphabet"
        );
    }
}

/// Names sort into the order the scans started.
#[test]
fn a_later_name_sorts_after_an_earlier_one() {
    let mut minter = Minter::new();
    let first = mint(&mut minter);
    let second = mint(&mut minter);

    assert!(first < second, "{first} should sort before {second}");
}

#[test]
fn zero_is_thirteen_zeros() {
    assert_eq!(encode(0), "0000000000000");
}

#[test]
fn the_last_digit_is_the_lowest_five_bits() {
    assert_eq!(encode(31), "000000000000Z");
    assert_eq!(encode(32), "0000000000010");
    assert_eq!(encode(u64::MAX), "FZZZZZZZZZZZZ");
}

#[test]
fn a_name_is_its_millisecond_and_its_count() {
    assert_eq!(name_at(0, 0), "0000000000000");
    assert_eq!(name_at(1, 0), encode(65536));
    assert_eq!(name_at(0, 65537), encode(1), "the count is kept within a millisecond");
}

#[test]
fn within_one_millisecond_a_later_count_sorts_after() {
    let earlier = name_at(1_700_000_000_000, 4);
    let later = name_at(1_700_000_000_000, 5);
    let next_ms = name_at(1_700_000_000_001, 0);

    assert!(earlier < later);
    assert!(later < next_ms);
}
