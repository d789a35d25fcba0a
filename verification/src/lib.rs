//! A command-line trivia quiz library: option validation, quiz URL
//! construction, answer-choice shuffling, and interactive grading with a
//! session tally. The interactive prompts and the HTTP fetch live outside
//! the library; everything here is pure logic with contracts.
pub mod options;
pub mod parse;
pub mod question;
pub mod runner;

pub use options::QuizOptions;
pub use options::accept_category;
pub use options::accept_difficulty;
pub use options::parse_num_questions;
pub use parse::parse_usize;
pub use parse::usize_to_decimal;
pub use question::Question;
pub use question::build_choices;
pub use question::shuffled_choices;
pub use runner::Grade;
pub use runner::QuizRunner;
pub use runner::QuizSummary;
pub use runner::SessionTally;
pub use runner::grade_answer;
pub use runner::percent_hundredths;
