//! The interactive quiz session: grading one answer line against the
//! shown choice list, the running tally, and the final summary.
use vstd::prelude::*;
use vstd::arithmetic::div_mod::{
    lemma_div_is_ordered,
    lemma_div_multiples_vanish,
    lemma_div_pos_is_pos,
};
use crate::parse::{decimal_value, parse_usize, parses_as_usize, unsigned_digits};
use crate::question::Question;

verus! {

/// The outcome of one answered question.
#[derive(Clone, Copy, Debug, PartialEq, Eq, Structural)]
pub enum Grade {
    /// The line named the choice whose text is the correct answer.
    Correct,
    /// The line named a choice with some other text.
    Incorrect,
    /// The line parsed as an integer outside 1..=choice_count.
    InvalidChoice,
    /// The line did not parse as a non-negative integer.
    InvalidInput,
}

/// How one answer line is graded: a line that does not parse as an
/// integer is invalid input; a parsed index outside the 1-based choice
/// range is an invalid choice; otherwise the named choice's text is
/// held against the correct answer's text.
pub open spec fn grade_of(choice_views: Seq<Seq<char>>, correct: Seq<char>, input: Seq<char>) -> Grade {
    if !parses_as_usize(input) {
        Grade::InvalidInput
    } else {
        let idx = decimal_value(unsigned_digits(input)) as int;
        if idx < 1 || idx > choice_views.len() {
            Grade::InvalidChoice
        } else if choice_views[idx - 1] == correct {
            Grade::Correct
        } else {
            Grade::Incorrect
        }
    }
}

/// Grades one trimmed answer line against the displayed choice list.
pub fn grade_answer(choices: &Vec<String>, correct_answer: &String, input: &str) -> (g: Grade)
    ensures
        g == grade_of(choices@.map_values(|s: String| s@), correct_answer@, input@),
{
    match parse_usize(input) {
        None => Grade::InvalidInput,
        Some(index) => {
            if index < 1 || index > choices.len() {
                Grade::InvalidChoice
            } else if choices[index - 1].eq(correct_answer) {
                Grade::Correct
            } else {
                Grade::Incorrect
            }
        },
    }
}

/// How every answer line is graded. A line that parses to a 1-based
/// position within the choice list grades as correct exactly when the
/// text at that position is the correct answer's text; a line that is
/// no number, or a number outside the range, is flagged as such and
/// never grades as correct.
pub proof fn lemma_grading(choice_views: Seq<Seq<char>>, correct: Seq<char>, input: Seq<char>)
    ensures
        (parses_as_usize(input) && 1 <= decimal_value(unsigned_digits(input))
            <= choice_views.len()) ==> (grade_of(choice_views, correct, input) == Grade::Correct
            <==> choice_views[decimal_value(unsigned_digits(input)) - 1] == correct),
        !parses_as_usize(input) ==> grade_of(choice_views, correct, input) == Grade::InvalidInput,
        (parses_as_usize(input) && !(1 <= decimal_value(unsigned_digits(input))
            <= choice_views.len())) ==> grade_of(choice_views, correct, input)
            == Grade::InvalidChoice,
{
}

/// The running counters of one session. The score moves in step with
/// the count of correct answers.
pub struct SessionTally {
    pub score: u64,
    pub correct_answers: u64,
    pub incorrect_answers: u64,
}

impl SessionTally {
    pub fn new() -> (r: SessionTally)
        ensures
            r.score == 0,
            r.correct_answers == 0,
            r.incorrect_answers == 0,
    {
        SessionTally { score: 0, correct_answers: 0, incorrect_answers: 0 }
    }

    /// Tallies one graded answer: a correct grade raises the score and
    /// the correct count by exactly one and leaves the incorrect count
    /// alone; every other grade raises the incorrect count by exactly
    /// one and leaves the score and the correct count alone.
    pub fn apply(&mut self, g: Grade)
        requires
            old(self).score < u64::MAX,
            old(self).correct_answers < u64::MAX,
            old(self).incorrect_answers < u64::MAX,
        ensures
            g == Grade::Correct ==> {
                &&& final(self).score == old(self).score + 1
                &&& final(self).correct_answers == old(self).correct_answers + 1
                &&& final(self).incorrect_answers == old(self).incorrect_answers
            },
            g != Grade::Correct ==> {
                &&& final(self).score == old(self).score
                &&& final(self).correct_answers == old(self).correct_answers
                &&& final(self).incorrect_answers == old(self).incorrect_answers + 1
            },
    {
        match g {
            Grade::Correct => {
                self.score = self.score + 1;
                self.correct_answers = self.correct_answers + 1;
            },
            _ => {
                self.incorrect_answers = self.incorrect_answers + 1;
            },
        }
    }
}

/// A share of a total in hundredths of a percent, rounded to the
/// nearest (half upward). A zero total, where no share is defined,
/// is flagged as `None` instead of dividing by zero.
pub open spec fn percent_hundredths_of(part: int, total: int) -> Option<u64>
    recommends
        0 <= part <= total,
{
    if total == 0 {
        None
    } else {
        Some((((part * 10000 + total / 2) / total)) as u64)
    }
}

/// The rounded percentage, in hundredths, that `part` is of `total`,
/// or `None` for the empty total.
pub fn percent_hundredths(part: u64, total: u64) -> (r: Option<u64>)
    requires
        part <= total,
    ensures
        r == percent_hundredths_of(part as int, total as int),
{
    if total == 0 {
        None
    } else {
        let n: u128 = (part as u128) * 10000 + (total as u128) / 2;
        let q: u128 = n / (total as u128);
        proof {
            let p = part as int;
            let t = total as int;
            assert(p * 10000 <= t * 10000);
            assert(p * 10000 + t / 2 <= t * 10001);
            lemma_div_is_ordered(p * 10000 + t / 2, t * 10001, t);
            lemma_div_multiples_vanish(10001, t);
            lemma_div_pos_is_pos(p * 10000 + t / 2, t);
        }
        Some(q as u64)
    }
}

/// The final report of a session: the raw counters and the two rounded
/// percentages, absent when no question was asked.
pub struct QuizSummary {
    pub score: u64,
    pub total_questions: u64,
    pub correct_answers: u64,
    pub incorrect_answers: u64,
    pub correct_percent_hundredths: Option<u64>,
    pub incorrect_percent_hundredths: Option<u64>,
}

/// One quiz session part-way through its question list: the questions,
/// the position of the next one to ask, and the tally so far.
pub struct QuizRunner {
    pub questions: Vec<Question>,
    pub next_index: usize,
    pub tally: SessionTally,
}

impl QuizRunner {
    /// Every reachable session state: the position is within the list,
    /// the score moves in step with the correct count, and each asked
    /// question was tallied exactly once, as correct or as incorrect.
    pub open spec fn wf(&self) -> bool {
        &&& self.next_index <= self.questions@.len()
        &&& self.tally.score == self.tally.correct_answers
        &&& self.tally.correct_answers + self.tally.incorrect_answers == self.next_index
    }

    pub fn new(questions: Vec<Question>) -> (r: QuizRunner)
        ensures
            r.questions == questions,
            r.next_index == 0,
            r.tally.score == 0,
            r.tally.correct_answers == 0,
            r.tally.incorrect_answers == 0,
            r.wf(),
    {
        QuizRunner { questions, next_index: 0, tally: SessionTally::new() }
    }

    pub fn has_next(&self) -> (r: bool)
        ensures
            r == (self.next_index < self.questions@.len()),
    {
        self.next_index < self.questions.len()
    }

    /// The question about to be asked.
    pub fn current_question(&self) -> (q: &Question)
        requires
            self.next_index < self.questions@.len(),
        ensures
            *q == self.questions@[self.next_index as int],
    {
        &self.questions[self.next_index]
    }

    /// Grades one answer line for the current question against the
    /// choice list that was shown, tallies the grade, and moves on.
    pub fn answer(&mut self, choices: &Vec<String>, input: &str) -> (g: Grade)
        requires
            old(self).wf(),
            old(self).next_index < old(self).questions@.len(),
        ensures
            final(self).wf(),
            final(self).questions == old(self).questions,
            final(self).next_index == old(self).next_index + 1,
            g == grade_of(
                choices@.map_values(|s: String| s@),
                old(self).questions@[old(self).next_index as int].correct_answer@,
                input@,
            ),
            g == Grade::Correct ==> {
                &&& final(self).tally.score == old(self).tally.score + 1
                &&& final(self).tally.correct_answers == old(self).tally.correct_answers + 1
                &&& final(self).tally.incorrect_answers == old(self).tally.incorrect_answers
            },
            g != Grade::Correct ==> {
                &&& final(self).tally.score == old(self).tally.score
                &&& final(self).tally.correct_answers == old(self).tally.correct_answers
                &&& final(self).tally.incorrect_answers == old(self).tally.incorrect_answers + 1
            },
    {
        let n = self.questions.len();
        let g = grade_answer(choices, &self.questions[self.next_index].correct_answer, input);
        proof {
            assert(self.next_index < n <= usize::MAX);
        }
        self.tally.apply(g);
        self.next_index = self.next_index + 1;
        g
    }

    /// The report of a finished session: the counters as they stand and
    /// the rounded percentages, absent when the question list was empty.
    pub fn summarize(&self) -> (r: QuizSummary)
        requires
            self.wf(),
            self.next_index == self.questions@.len(),
        ensures
            r.score == self.tally.score,
            r.total_questions == self.questions@.len(),
            r.correct_answers == self.tally.correct_answers,
            r.incorrect_answers == self.tally.incorrect_answers,
            r.correct_percent_hundredths == percent_hundredths_of(
                self.tally.correct_answers as int,
                self.questions@.len() as int,
            ),
            r.incorrect_percent_hundredths == percent_hundredths_of(
                self.tally.incorrect_answers as int,
                self.questions@.len() as int,
            ),
    {
        let total: u64 = self.questions.len() as u64;
        QuizSummary {
            score: self.tally.score,
            total_questions: total,
            correct_answers: self.tally.correct_answers,
            incorrect_answers: self.tally.incorrect_answers,
            correct_percent_hundredths: percent_hundredths(self.tally.correct_answers, total),
            incorrect_percent_hundredths: percent_hundredths(self.tally.incorrect_answers, total),
        }
    }
}

} // verus!
