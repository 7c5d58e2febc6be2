//! Domain model: categories, questions and their choices, together with the
//! validation rule that a question carries at most one correct choice.

use vstd::prelude::*;
use vstd::string::StringExecFns;

verus! {

/// A domain-validation failure, produced before any store operation runs.
/// It points at the offending field and carries a human-readable message.
#[derive(Debug)]
pub enum ValidationError {
    Constraint { pointer: String, message: String },
}

/// A named grouping of questions.  The title is the unique business key.
#[derive(Debug)]
pub struct Category {
    pub title: String,
}

/// A list of categories, as returned by the category listing operation.
#[derive(Debug)]
pub struct Categories {
    pub categories: Vec<Category>,
}

/// One answer option of a question.  The id is assigned by the store on
/// creation and absent before persistence.
#[derive(Debug, Clone)]
pub struct Choice {
    pub id: Option<i64>,
    pub title: String,
    pub correct: bool,
}

/// A question with its ordered choices.  The id is assigned by the store on
/// creation; the category is a loose, name-based association.
#[derive(Debug)]
pub struct Question {
    pub id: Option<i64>,
    pub question: String,
    pub category: String,
    pub choices: Vec<Choice>,
}

/// Number of choices marked correct in `choices`.
pub open spec fn correct_count(choices: Seq<Choice>) -> int
    decreases choices.len(),
{
    if choices.len() == 0 {
        0
    } else {
        correct_count(choices.drop_last()) + if choices.last().correct {
            1int
        } else {
            0int
        }
    }
}

impl Question {
    /// Checks the invariant that at most one choice of a question may be
    /// marked correct; rejects the question with a pointer to its choices
    /// field exactly when more than one choice is correct.
    pub fn validate(question: &Question) -> (r: Result<(), ValidationError>)
        ensures
            r is Err <==> correct_count(question.choices@) > 1,
            r matches Err(ValidationError::Constraint { pointer, message }) ==> pointer@
                == "/data/attribute/choices"@ && message@ == "Only one correct choice allowed"@,
    {
        let n = question.choices.len();
        let mut count: u64 = 0;
        let mut i: usize = 0;
        while i < n
            invariant
                i <= n,
                n == question.choices@.len(),
                count == correct_count(question.choices@.take(i as int)),
                count <= i,
            decreases n - i,
        {
            proof {
                assert(question.choices@.take(i + 1).drop_last() =~= question.choices@.take(
                    i as int,
                ));
                assert(question.choices@.take(i + 1).last() == question.choices@[i as int]);
            }
            if question.choices[i].correct {
                count = count + 1;
            }
            i = i + 1;
        }
        proof {
            assert(question.choices@.take(n as int) =~= question.choices@);
        }
        if count > 1 {
            return Err(
                ValidationError::Constraint {
                    pointer: String::from_str("/data/attribute/choices"),
                    message: String::from_str("Only one correct choice allowed"),
                },
            );
        }
        Ok(())
    }
}

} // verus!
