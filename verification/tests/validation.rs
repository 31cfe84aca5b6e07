use taiwan_id::{code_map, expand, passes_checksum, solve_check_digit, sum};

#[test]
fn is_valid() {
    assert!(taiwan_id::is_valid("A123456789"));
    assert!(!taiwan_id::is_valid("A1234567899"));
    assert!(!taiwan_id::is_valid("Z123456789"));
    assert!(!taiwan_id::is_valid(""));
    assert!(!taiwan_id::is_valid("A一二三四五六七八九"));
}

#[test]
fn known_numbers_are_told_apart() {
    assert!(taiwan_id::is_valid("A123456789"));
    assert!(!taiwan_id::is_valid("A987654321"));
    assert!(taiwan_id::is_valid("Z123456780"));
    assert!(taiwan_id::is_valid("I100000003"));
}

#[test]
fn wrong_lengths_are_rejected() {
    assert!(!taiwan_id::is_valid("A"));
    assert!(!taiwan_id::is_valid("A12345678"));
    assert!(!taiwan_id::is_valid("A1234567890"));
    assert!(!taiwan_id::is_valid("A123456789A123456789A123456789"));
}

#[test]
fn wrong_characters_are_rejected() {
    assert!(!taiwan_id::is_valid("a123456789"));
    assert!(!taiwan_id::is_valid("1123456789"));
    assert!(!taiwan_id::is_valid("@123456789"));
    assert!(!taiwan_id::is_valid("[123456789"));
    assert!(!taiwan_id::is_valid("A12345678X"));
    assert!(!taiwan_id::is_valid("A1234 6789"));
    assert!(!taiwan_id::is_valid("AA23456789"));
    assert!(!taiwan_id::is_valid("A12345678/"));
    assert!(!taiwan_id::is_valid("A12345678:"));
}

#[test]
fn length_is_counted_in_characters() {
    // Ten bytes, but fewer than ten characters.
    assert_eq!("A1234567é".len(), 10);
    assert!(!taiwan_id::is_valid("A1234567é"));
    // Ten characters, all digits of another script.
    assert!(!taiwan_id::is_valid("A１２３４５６７８９"));
    assert!(!taiwan_id::is_valid("Ａ123456789"));
}

#[test]
fn same_text_same_answer() {
    for text in ["A123456789", "Z123456789", "", "A一二三四五六七八九"] {
        assert_eq!(taiwan_id::is_valid(text), taiwan_id::is_valid(text));
    }
}

#[test]
fn every_letter_has_its_number() {
    let numbers: [u8; 26] = [
        10, 11, 12, 13, 14, 15, 16, 17, 34, 18, 19, 20, 21, 22, 35, 23, 24, 25, 26, 27, 28, 29,
        32, 30, 31, 33,
    ];
    for (letter, number) in ('A'..='Z').zip(numbers) {
        assert_eq!(code_map(letter), [number / 10, number % 10]);
    }
    assert_eq!(code_map('A'), [1, 0]);
    assert_eq!(code_map('I'), [3, 4]);
    assert_eq!(code_map('O'), [3, 5]);
    assert_eq!(code_map('Z'), [3, 3]);
}

#[test]
fn weighted_sum_of_a_known_expansion() {
    assert_eq!(sum(&[3, 3, 1, 2, 3, 4, 5, 6, 7, 8, 9]), 159);
    assert_eq!(sum(&[1, 0, 1, 2, 3, 4, 5, 6, 7, 8, 9]), 130);
    assert_eq!(sum(&[]), 0);
    assert_eq!(sum(&[0, 1]), 9);
    assert_eq!(sum(&[9; 11]), 9 * 47);
    assert_eq!(sum(&[255; 11]), 255 * 47);
}

#[test]
fn checksum_passes_on_multiples_of_ten() {
    assert!(passes_checksum(&[1, 0, 1, 2, 3, 4, 5, 6, 7, 8, 9]));
    assert!(!passes_checksum(&[3, 3, 1, 2, 3, 4, 5, 6, 7, 8, 9]));
    assert!(passes_checksum(&[0; 11]));
}

#[test]
fn check_digit_of_known_expansions() {
    assert_eq!(solve_check_digit(&[1, 0, 1, 2, 3, 4, 5, 6, 7, 8]), 9);
    assert_eq!(solve_check_digit(&[3, 3, 1, 2, 3, 4, 5, 6, 7, 8]), 0);
    assert_eq!(solve_check_digit(&[0; 10]), 0);
    assert_eq!(solve_check_digit(&[1, 0, 0, 0, 0, 0, 0, 0, 0, 0]), 9);
}

#[test]
fn check_digit_settles_every_letter() {
    for letter in 'A'..='Z' {
        let pair = code_map(letter);
        let mut digits = vec![pair[0], pair[1], 1, 4, 1, 4, 2, 1, 3, 5];
        let check = solve_check_digit(&digits);
        assert!(check <= 9);
        digits.push(check);
        assert!(passes_checksum(&digits));
        for other in 0..10u8 {
            if other != check {
                digits[10] = other;
                assert!(!passes_checksum(&digits));
            }
        }
    }
}

#[test]
fn expansion_of_texts() {
    assert_eq!(expand(""), Some(vec![]));
    assert_eq!(expand("Z"), Some(vec![3, 3]));
    assert_eq!(expand("Z123456789"), Some(vec![3, 3, 1, 2, 3, 4, 5, 6, 7, 8, 9]));
    assert_eq!(expand("A09"), Some(vec![1, 0, 0, 9]));
    assert_eq!(expand("z1"), None);
    assert_eq!(expand("1"), None);
    assert_eq!(expand("AB"), None);
    assert_eq!(expand("A１"), None);
}
