use tic_tac_toe::input::{is_affirmative, is_whitespace, parse_number, wants_rematch};

fn std_says_yes(text: &str) -> bool {
    let lowered = text.to_lowercase();
    lowered.trim() == "y" || lowered.trim() == "yes"
}

#[test]
fn rematch_answers_that_accept() {
    for answer in ["y", "Y", "yes", "YES", " yes \n", "Yes", "yEs", "\ty\r\n", "yeS"] {
        assert!(is_affirmative(answer));
        assert!(wants_rematch(Some(answer)));
    }
}

#[test]
fn rematch_answers_that_decline() {
    for answer in ["n", "", "maybe", "no", "ye", "yess", "y e s", "yes!", "   ", "yy", "ya"] {
        assert!(!is_affirmative(answer));
        assert!(!wants_rematch(Some(answer)));
    }
}

#[test]
fn an_unreadable_answer_declines() {
    assert!(!wants_rematch(None));
}

#[test]
fn white_space_is_what_std_calls_white_space() {
    for code in 0..=0x10FFFFu32 {
        if let Some(c) = char::from_u32(code) {
            assert_eq!(is_whitespace(c), c.is_whitespace());
        }
    }
}

#[test]
fn one_character_answers_agree_with_std() {
    for code in 0..=0x10FFFFu32 {
        if let Some(c) = char::from_u32(code) {
            let answer = c.to_string();
            assert_eq!(is_affirmative(&answer), std_says_yes(&answer));
        }
    }
}

#[test]
fn three_character_answers_agree_with_std() {
    for code in 0..=0x10FFFFu32 {
        if let Some(c) = char::from_u32(code) {
            for answer in [format!("{}es", c), format!("y{}s", c), format!("ye{}", c)] {
                assert_eq!(is_affirmative(&answer), std_says_yes(&answer));
            }
        }
    }
}

#[test]
fn padded_answers_agree_with_std() {
    for code in 0..=0x10FFFFu32 {
        if let Some(c) = char::from_u32(code) {
            for answer in [format!("{}y", c), format!("yes{}", c), format!("{}Y{}", c, c)] {
                assert_eq!(is_affirmative(&answer), std_says_yes(&answer));
            }
        }
    }
}

#[test]
fn numbers_are_read_exactly() {
    assert_eq!(parse_number("5"), Some(5));
    assert_eq!(parse_number("0"), Some(0));
    assert_eq!(parse_number("10"), Some(10));
    assert_eq!(parse_number(" 7 \n"), Some(7));
    assert_eq!(parse_number("\t42\r\n"), Some(42));
    assert_eq!(parse_number("+3"), Some(3));
    assert_eq!(parse_number("007"), Some(7));
    assert_eq!(parse_number("1234567"), Some(1234567));
    assert_eq!(parse_number("4294967295"), Some(u32::MAX));
    assert_eq!(parse_number("00000000000000000000009"), Some(9));
}

#[test]
fn text_that_is_no_number_is_not_read() {
    for text in [
        "", " ", "abc", "-1", "+", "-", "++1", "+-1", "1 2", "1.0", "0x1", "1e3", "4294967296",
        "99999999999999999999", "5!", "five", "+ 5", "١", "５",
    ] {
        assert_eq!(parse_number(text), None);
    }
}

#[test]
fn numbers_are_read_as_std_reads_them() {
    let samples = [
        "1", "9", " 9", "9 ", "10", "+10", "-10", "", "+", "0", "00", "+0", "4294967295",
        "4294967296", "42949672950", "18446744073709551616", "\u{a0}8\u{2003}", "\u{3000}3",
        "8\u{85}", "1\u{200b}", "٣", "3\n", "3\r\n", "\n", "x", "1x", "x1", "1_000", " +7 ",
    ];
    for text in samples {
        assert_eq!(parse_number(text), text.trim().parse::<u32>().ok());
    }
    for n in (0..=u32::MAX).step_by(65_521) {
        let text = format!("  {}\n", n);
        assert_eq!(parse_number(&text), Some(n));
    }
}

#[test]
fn one_character_numbers_agree_with_std() {
    for code in 0..=0x10FFFFu32 {
        if let Some(c) = char::from_u32(code) {
            for text in [c.to_string(), format!("{}4", c), format!("4{}", c)] {
                assert_eq!(parse_number(&text), text.trim().parse::<u32>().ok());
            }
        }
    }
}
