use trivia_quiz::Question;
use trivia_quiz::build_choices;
use trivia_quiz::shuffled_choices;

fn sample_question() -> Question {
    Question {
        question: String::from("Which planet is known as the Red Planet?"),
        correct_answer: String::from("Mars"),
        incorrect_answers: vec![
            String::from("Venus"),
            String::from("Jupiter"),
            String::from("Saturn"),
        ],
    }
}

#[test]
fn choices_are_incorrect_answers_then_correct() {
    let q = sample_question();
    let choices = build_choices(&q);
    assert_eq!(choices, vec!["Venus", "Jupiter", "Saturn", "Mars"]);
}

#[test]
fn shuffled_choices_have_length_four() {
    let q = sample_question();
    let choices = shuffled_choices(&q);
    assert_eq!(choices.len(), 4);
}

#[test]
fn shuffled_choices_contain_the_correct_answer_exactly_once() {
    let q = sample_question();
    for _ in 0..50 {
        let choices = shuffled_choices(&q);
        let occurrences = choices.iter().filter(|c| *c == "Mars").count();
        assert_eq!(occurrences, 1);
    }
}

#[test]
fn shuffling_keeps_exactly_the_original_texts() {
    let q = sample_question();
    for _ in 0..50 {
        let mut choices = shuffled_choices(&q);
        choices.sort();
        assert_eq!(choices, vec!["Jupiter", "Mars", "Saturn", "Venus"]);
    }
}

#[test]
fn every_position_of_the_correct_answer_occurs() {
    // The shuffle is random: over enough draws the correct answer
    // should appear at every one of the four positions.
    let q = sample_question();
    let mut seen = [false; 4];
    for _ in 0..500 {
        let choices = shuffled_choices(&q);
        let position = choices.iter().position(|c| c == "Mars").unwrap();
        seen[position] = true;
    }
    assert_eq!(seen, [true, true, true, true]);
}

#[test]
fn a_single_answer_question_still_builds_choices() {
    let q = Question {
        question: String::from("Is water wet?"),
        correct_answer: String::from("Yes"),
        incorrect_answers: Vec::new(),
    };
    assert_eq!(build_choices(&q), vec!["Yes"]);
    assert_eq!(shuffled_choices(&q), vec!["Yes"]);
}
