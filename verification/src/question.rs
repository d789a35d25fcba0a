//! Questions and their answer-choice lists: the incorrect answers with
//! the correct answer appended, handed out in a random order.
use vstd::prelude::*;
use vstd::seq_lib::group_to_multiset_ensures;
use rand::seq::SliceRandom;

verus! {

/// One fetched trivia question: the prompt text, the correct answer,
/// and the list of incorrect answers.
pub struct Question {
    pub question: String,
    pub correct_answer: String,
    pub incorrect_answers: Vec<String>,
}

impl Question {
    /// The answer texts of the unshuffled choice list: the incorrect
    /// answers in order, then the correct answer.
    pub open spec fn choice_views(&self) -> Seq<Seq<char>> {
        self.incorrect_answers@.map_values(|s: String| s@).push(self.correct_answer@)
    }
}

/// The choice list before shuffling: the incorrect answers in their
/// fetched order, with the correct answer appended.
pub fn build_choices(q: &Question) -> (r: Vec<String>)
    ensures
        r@ =~= q.incorrect_answers@.push(q.correct_answer),
        r@.map_values(|s: String| s@) =~= q.choice_views(),
{
    let mut choices: Vec<String> = Vec::new();
    let mut i: usize = 0;
    while i < q.incorrect_answers.len()
        invariant
            i <= q.incorrect_answers.len(),
            choices@ =~= q.incorrect_answers@.take(i as int),
        decreases q.incorrect_answers.len() - i,
    {
        choices.push(q.incorrect_answers[i].clone());
        i = i + 1;
    }
    choices.push(q.correct_answer.clone());
    choices
}

/// Relies on rand's slice shuffle (a Fisher-Yates permutation done by
/// swaps in place) and thread_rng: the call reorders the elements and
/// neither adds, drops nor alters any.
#[verifier::external_body]
fn shuffle_strings(v: &mut Vec<String>)
    ensures
        final(v)@.len() == old(v)@.len(),
        final(v)@.to_multiset() == old(v)@.to_multiset(),
        final(v)@.map_values(|s: String| s@).to_multiset() == old(v)@.map_values(
            |s: String| s@,
        ).to_multiset(),
{
    let mut rng = rand::thread_rng();
    v.as_mut_slice().shuffle(&mut rng);
}

/// The choice list for one question, in the random order it is shown:
/// some reordering of the incorrect answers plus the correct answer.
pub fn shuffled_choices(q: &Question) -> (r: Vec<String>)
    ensures
        r@.len() == q.incorrect_answers@.len() + 1,
        r@.to_multiset() == q.incorrect_answers@.push(q.correct_answer).to_multiset(),
        r@.map_values(|s: String| s@).to_multiset() == q.choice_views().to_multiset(),
{
    let mut choices = build_choices(q);
    shuffle_strings(&mut choices);
    choices
}

/// Any reordering of a question's choice list has one entry more than
/// the incorrect answers, and, where no incorrect answer repeats the
/// correct answer's text, carries the correct text exactly once.
pub proof fn lemma_correct_text_once(q: Question, views: Seq<Seq<char>>)
    requires
        forall|i: int|
            0 <= i < q.incorrect_answers@.len() ==> #[trigger] q.incorrect_answers@[i]@
                != q.correct_answer@,
        views.to_multiset() == q.choice_views().to_multiset(),
    ensures
        views.len() == q.incorrect_answers@.len() + 1,
        views.to_multiset().count(q.correct_answer@) == 1,
{
    broadcast use group_to_multiset_ensures;

    let mapped = q.incorrect_answers@.map_values(|s: String| s@);
    assert(!mapped.contains(q.correct_answer@));
    assert(mapped.to_multiset().count(q.correct_answer@) == 0);
    assert(q.choice_views().to_multiset() =~= mapped.to_multiset().insert(q.correct_answer@));
    assert(views.len() == views.to_multiset().len());
    assert(q.choice_views().len() == q.choice_views().to_multiset().len());
}

} // verus!
