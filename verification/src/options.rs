//! Quiz parameters: the question count, the difficulty tier and the
//! category number, with the validation that the interactive prompts
//! apply, and the request URL built from the three.
use vstd::prelude::*;
use crate::parse::{
    decimal_digits,
    decimal_value,
    parse_usize,
    parses_as_usize,
    unsigned_digits,
    usize_to_decimal,
};

verus! {

/// The three accepted difficulty tiers, by exact match.
pub open spec fn is_valid_difficulty(s: Seq<char>) -> bool {
    s == "easy"@ || s == "medium"@ || s == "hard"@
}

/// The fixed category menu: General Knowledge, Books, Film, Music, TV.
pub open spec fn is_valid_category(c: int) -> bool {
    c == 9 || c == 10 || c == 11 || c == 12 || c == 14
}

/// The parameters of one quiz session, immutable once constructed.
pub struct QuizOptions {
    pub num_questions: usize,
    pub difficulty: String,
    pub category: usize,
}

/// Turns the question-count line into a count: a line that does not
/// parse as a non-negative integer is leniently taken as zero.
pub fn parse_num_questions(input: &str) -> (n: usize)
    ensures
        parses_as_usize(input@) ==> n == decimal_value(unsigned_digits(input@)),
        !parses_as_usize(input@) ==> n == 0,
{
    match parse_usize(input) {
        Some(n) => n,
        None => 0,
    }
}

/// Accepts a difficulty line exactly when it is one of the three tiers;
/// any other line is rejected, to be prompted for again.
pub fn accept_difficulty(input: &str) -> (r: Option<String>)
    ensures
        match r {
            Some(s) => is_valid_difficulty(input@) && s@ == input@,
            None => !is_valid_difficulty(input@),
        },
{
    let s = input.to_owned();
    let easy = String::from_str("easy");
    let medium = String::from_str("medium");
    let hard = String::from_str("hard");
    if s == easy || s == medium || s == hard {
        Some(s)
    } else {
        None
    }
}

/// Accepts a category line exactly when it parses as an integer on the
/// fixed menu; any other line is rejected, to be prompted for again.
pub fn accept_category(input: &str) -> (r: Option<usize>)
    ensures
        match r {
            Some(c) => parses_as_usize(input@) && c == decimal_value(unsigned_digits(input@))
                && is_valid_category(c as int),
            None => !(parses_as_usize(input@) && is_valid_category(
                decimal_value(unsigned_digits(input@)) as int,
            )),
        },
{
    match parse_usize(input) {
        Some(c) => if c == 9 || c == 10 || c == 11 || c == 12 || c == 14 {
            Some(c)
        } else {
            None
        },
        None => None,
    }
}

impl QuizOptions {
    /// A well-formed option set: the difficulty and the category were
    /// accepted by the validation above. The count is unconstrained.
    pub open spec fn wf(&self) -> bool {
        is_valid_difficulty(self.difficulty@) && is_valid_category(self.category as int)
    }

    pub fn new(num_questions: usize, difficulty: String, category: usize) -> (r: QuizOptions)
        requires
            is_valid_difficulty(difficulty@),
            is_valid_category(category as int),
        ensures
            r.num_questions == num_questions,
            r.difficulty == difficulty,
            r.category == category,
            r.wf(),
    {
        QuizOptions { num_questions, difficulty, category }
    }

    /// The request URL for this option set.
    pub fn build_quiz_url(&self) -> (r: String)
        ensures
            r@ == quiz_url_spec(self.num_questions as nat, self.category as nat, self.difficulty@),
    {
        let mut url = String::from_str("https://opentdb.com/api.php?amount=");
        let amount = usize_to_decimal(self.num_questions);
        url.append(amount.as_str());
        url.append("&category=");
        let category = usize_to_decimal(self.category);
        url.append(category.as_str());
        url.append("&difficulty=");
        url.append(self.difficulty.as_str());
        url.append("&type=multiple");
        proof {
            assert(url@ =~= quiz_url_spec(
                self.num_questions as nat,
                self.category as nat,
                self.difficulty@,
            ));
        }
        url
    }
}

/// The fixed trivia endpoint with the amount, category, difficulty and
/// question type filled in as query parameters.
pub open spec fn quiz_url_spec(num: nat, category: nat, difficulty: Seq<char>) -> Seq<char> {
    "https://opentdb.com/api.php?amount="@ + decimal_digits(num) + "&category="@ + decimal_digits(
        category,
    ) + "&difficulty="@ + difficulty + "&type=multiple"@
}

} // verus!
