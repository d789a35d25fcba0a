use trivia_quiz::QuizOptions;
use trivia_quiz::accept_category;
use trivia_quiz::accept_difficulty;
use trivia_quiz::parse_num_questions;
use trivia_quiz::parse_usize;
use trivia_quiz::usize_to_decimal;

#[test]
fn every_valid_difficulty_is_accepted() {
    for d in ["easy", "medium", "hard"] {
        let accepted = accept_difficulty(d);
        assert_eq!(accepted.as_deref(), Some(d));
    }
}

#[test]
fn other_difficulty_lines_are_rejected() {
    for d in ["", "Easy", "EASY", " easy", "easy ", "hardd", "medium1", "impossible"] {
        assert!(accept_difficulty(d).is_none());
    }
}

#[test]
fn every_menu_category_is_accepted() {
    for c in [9usize, 10, 11, 12, 14] {
        let line = format!("{}", c);
        assert_eq!(accept_category(&line), Some(c));
    }
}

#[test]
fn other_category_lines_are_rejected() {
    for line in ["0", "8", "13", "15", "100", "-9", "nine", "", "9.0", "9 "] {
        assert_eq!(accept_category(line), None);
    }
}

#[test]
fn question_count_parses_or_defaults_to_zero() {
    assert_eq!(parse_num_questions("5"), 5);
    assert_eq!(parse_num_questions("0"), 0);
    assert_eq!(parse_num_questions("007"), 7);
    assert_eq!(parse_num_questions("+12"), 12);
    assert_eq!(parse_num_questions(""), 0);
    assert_eq!(parse_num_questions("five"), 0);
    assert_eq!(parse_num_questions("-3"), 0);
    assert_eq!(parse_num_questions("2 "), 0);
}

#[test]
fn parse_usize_matches_the_standard_parser() {
    for line in ["0", "42", "+7", "007", "18446744073709551615", "18446744073709551616", "+", "",
        "1x", "x1", "-1", " 1", "1 ", "++1", "99999999999999999999999999"] {
        assert_eq!(parse_usize(line), line.parse::<usize>().ok());
    }
}

#[test]
fn decimal_rendering_is_exact() {
    assert_eq!(usize_to_decimal(0), "0");
    assert_eq!(usize_to_decimal(7), "7");
    assert_eq!(usize_to_decimal(10), "10");
    assert_eq!(usize_to_decimal(120), "120");
    assert_eq!(usize_to_decimal(98765), "98765");
    assert_eq!(usize_to_decimal(usize::MAX), format!("{}", usize::MAX));
}

#[test]
fn rendering_then_parsing_returns_the_value() {
    for n in [0usize, 1, 9, 10, 99, 12345, usize::MAX] {
        assert_eq!(parse_usize(&usize_to_decimal(n)), Some(n));
    }
}

#[test]
fn the_quiz_url_embeds_all_parameters() {
    let options = QuizOptions::new(10, String::from("easy"), 9);
    assert_eq!(
        options.build_quiz_url(),
        "https://opentdb.com/api.php?amount=10&category=9&difficulty=easy&type=multiple"
    );
    let options = QuizOptions::new(0, String::from("hard"), 14);
    assert_eq!(
        options.build_quiz_url(),
        "https://opentdb.com/api.php?amount=0&category=14&difficulty=hard&type=multiple"
    );
}

#[test]
fn constructed_options_keep_their_fields() {
    let options = QuizOptions::new(3, String::from("medium"), 12);
    assert_eq!(options.num_questions, 3);
    assert_eq!(options.difficulty, "medium");
    assert_eq!(options.category, 12);
}
