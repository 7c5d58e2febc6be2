//! The store: category and question operations over an explicit table model.
//!
//! The `Database` value plays the role of the backing relational store for
//! one logical operation: the caller owns it, passes it to one operation, and
//! the operation's contract says exactly how the tables change.  A driver
//! sitting outside the crate replays the same operations against a live
//! server; the decision logic it needs (placeholder building, id zipping,
//! row grouping, offset arithmetic) is exported from here in verified form.

use vstd::prelude::*;
use vstd::string::StringExecFns;
use crate::models::{Categories, Category, Choice, Question};
use crate::text::str_eq;

verus! {

/// Filtering a sequence extended by one element keeps the old result and
/// appends the element exactly when it satisfies the predicate.
proof fn lemma_filter_push<A>(s: Seq<A>, pred: spec_fn(A) -> bool, x: A)
    ensures
        s.push(x).filter(pred) == if pred(x) {
            s.filter(pred).push(x)
        } else {
            s.filter(pred)
        },
{
    reveal(Seq::filter);
    assert(s.push(x).drop_last() =~= s);
    assert(s.push(x).last() == x);
}

/// Closed set of storage-failure kinds.  Store operations return exactly one
/// of these on failure and never leak a driver's native error type.
#[derive(Debug, PartialEq)]
pub enum RepositoryError {
    /// Could not establish or obtain the store connection.
    ConnectionError(String),
    /// A statement failed during execution (constraint violations, syntax,
    /// timeouts).
    DatabaseError(String),
    /// A stored value could not be converted to the expected in-memory type.
    ConversionError(String),
    /// Transport-level I/O failure distinct from a query failure.
    IOError(String),
    /// Fallback bucket.
    UnknownError(Option<String>),
    /// An update targeted a row that does not exist.
    NotFound,
}

/// Whether a category upsert inserted a row or found one already there.
#[derive(Debug, PartialEq, Eq, Structural, Clone, Copy)]
pub enum SaveCategoryStatus {
    Created,
    Exists,
}

/// One row of the categories table: the unique name and the active flag.
#[derive(Debug)]
pub struct CategoryRow {
    pub name: String,
    pub active: bool,
}

/// One row of the questions table.
#[derive(Debug)]
pub struct QuestionRow {
    pub id: i64,
    pub text: String,
    pub category: String,
}

/// One row of the choices table.
#[derive(Debug)]
pub struct ChoiceRow {
    pub id: i64,
    pub question_id: i64,
    pub title: String,
    pub correct: bool,
}

/// Spec-level image of one category row: the name as a character sequence.
#[verifier::ext_equal]
pub struct CategoryModel {
    pub name: Seq<char>,
    pub active: bool,
}

/// The categories table as a sequence of spec-level rows.
pub open spec fn cat_model(cats: Seq<CategoryRow>) -> Seq<CategoryModel> {
    cats.map_values(|r: CategoryRow| CategoryModel { name: r.name@, active: r.active })
}

/// Whether some row of `cats` carries `title`.
pub open spec fn model_has(cats: Seq<CategoryModel>, title: Seq<char>) -> bool {
    exists|i: int| 0 <= i < cats.len() && cats[i].name == title
}

/// Number of rows of `cats` that carry `title`.
pub open spec fn model_count(cats: Seq<CategoryModel>, title: Seq<char>) -> int {
    cats.filter(|c: CategoryModel| c.name == title).len() as int
}

/// The categories table after `UPDATE categories SET active = a WHERE name =
/// title`: every row with that name gets the new flag, all others stay.
pub open spec fn spec_set_active(cats: Seq<CategoryModel>, title: Seq<char>, a: bool) -> Seq<
    CategoryModel,
> {
    Seq::new(
        cats.len(),
        |i: int|
            if cats[i].name == title {
                CategoryModel { name: title, active: a }
            } else {
                cats[i]
            },
    )
}

/// The categories table after the upsert statement.  Without an active value
/// the statement is insert-or-ignore; with one it is insert-or-overwrite of
/// the active flag.  A row inserted without an active value gets the
/// creation default, inactive.
pub open spec fn spec_upsert(
    cats: Seq<CategoryModel>,
    title: Seq<char>,
    active: Option<bool>,
) -> Seq<CategoryModel> {
    if model_has(cats, title) {
        match active {
            Some(a) => spec_set_active(cats, title, a),
            None => cats,
        }
    } else {
        cats.push(
            CategoryModel {
                name: title,
                active: match active {
                    Some(a) => a,
                    None => false,
                },
            },
        )
    }
}

/// The status the upsert statement reports.  The insert-or-ignore form
/// affects a row exactly when it inserts one; the overwrite form affects one
/// row whether it inserted or updated, so it always reports `Created`.
pub open spec fn spec_upsert_status(
    cats: Seq<CategoryModel>,
    title: Seq<char>,
    active: Option<bool>,
) -> SaveCategoryStatus {
    match active {
        Some(_) => SaveCategoryStatus::Created,
        None => if model_has(cats, title) {
            SaveCategoryStatus::Exists
        } else {
            SaveCategoryStatus::Created
        },
    }
}

/// The names of the active categories of `cats`, in table order.
pub open spec fn active_names(cats: Seq<CategoryModel>) -> Seq<Seq<char>> {
    cats.filter(|c: CategoryModel| c.active).map_values(|c: CategoryModel| c.name)
}

/// The backing store for one logical operation: the three tables, the next
/// identity value of each id column, and two switches that force the next
/// question or choices insert statement to fail, the way a constraint
/// violation would, so that the transactional behaviour can be exercised.
pub struct Database {
    pub categories: Vec<CategoryRow>,
    pub questions: Vec<QuestionRow>,
    pub choices: Vec<ChoiceRow>,
    pub next_question_id: i64,
    pub next_choice_id: i64,
    pub question_insert_fails: bool,
    pub choices_insert_fails: bool,
}

impl Database {
    /// Table well-formedness: category names are unique; question and choice
    /// ids are strictly increasing along their tables, positive, and below
    /// the next identity value.
    pub open spec fn wf(self) -> bool {
        &&& forall|i: int, j: int|
            0 <= i < j < self.categories@.len() ==> #[trigger] self.categories@[i].name@
                != #[trigger] self.categories@[j].name@
        &&& forall|i: int, j: int|
            0 <= i < j < self.questions@.len() ==> #[trigger] self.questions@[i].id
                < #[trigger] self.questions@[j].id
        &&& forall|i: int|
            0 <= i < self.questions@.len() ==> 1 <= #[trigger] self.questions@[i].id
                < self.next_question_id
        &&& forall|i: int, j: int|
            0 <= i < j < self.choices@.len() ==> #[trigger] self.choices@[i].id
                < #[trigger] self.choices@[j].id
        &&& forall|i: int|
            0 <= i < self.choices@.len() ==> 1 <= #[trigger] self.choices@[i].id
                < self.next_choice_id
        &&& 1 <= self.next_question_id
        &&& 1 <= self.next_choice_id
    }

    /// An empty store.
    pub fn new() -> (db: Database)
        ensures
            db.wf(),
            db.categories@.len() == 0,
            db.questions@.len() == 0,
            db.choices@.len() == 0,
            db.next_question_id == 1,
            db.next_choice_id == 1,
            !db.question_insert_fails,
            !db.choices_insert_fails,
    {
        Database {
            categories: Vec::new(),
            questions: Vec::new(),
            choices: Vec::new(),
            next_question_id: 1,
            next_choice_id: 1,
            question_insert_fails: false,
            choices_insert_fails: false,
        }
    }

    /// Index of the category row named `title`, if any.
    fn find_category(&self, title: &str) -> (r: Option<usize>)
        ensures
            match r {
                Some(i) => i < self.categories@.len() && self.categories@[i as int].name@
                    == title@,
                None => forall|i: int|
                    0 <= i < self.categories@.len() ==> #[trigger] self.categories@[i].name@
                        != title@,
            },
    {
        let n = self.categories.len();
        let mut i: usize = 0;
        while i < n
            invariant
                i <= n,
                n == self.categories@.len(),
                forall|j: int|
                    0 <= j < i ==> #[trigger] self.categories@[j].name@ != title@,
            decreases n - i,
        {
            if str_eq(self.categories[i].name.as_str(), title) {
                return Some(i);
            }
            i = i + 1;
        }
        None
    }

    /// Inserts a category row if absent; does nothing on conflict.  No
    /// activation implied: a new row gets the creation default, inactive.
    pub fn save_category(&mut self, category: &Category) -> (r: Result<
        SaveCategoryStatus,
        RepositoryError,
    >)
        requires
            old(self).wf(),
        ensures
            final(self).wf(),
            cat_model(final(self).categories@) == spec_upsert(
                cat_model(old(self).categories@),
                category.title@,
                None,
            ),
            r == Ok::<SaveCategoryStatus, RepositoryError>(
                spec_upsert_status(cat_model(old(self).categories@), category.title@, None),
            ),
            final(self).questions@ == old(self).questions@,
            final(self).choices@ == old(self).choices@,
            final(self).next_question_id == old(self).next_question_id,
            final(self).next_choice_id == old(self).next_choice_id,
            final(self).question_insert_fails == old(self).question_insert_fails,
            final(self).choices_insert_fails == old(self).choices_insert_fails,
    {
        self.save_category_and_set_active(category, None)
    }

    /// One upsert statement over the categories table.  Without an active
    /// value it is insert-or-ignore.  With one, it inserts the row with that
    /// active flag, and on conflict overwrites the existing row's flag with
    /// the provided value; since the overwrite statement affects one row
    /// either way, it reports `Created` whether it inserted or updated.
    pub fn save_category_and_set_active(&mut self, category: &Category, active: Option<bool>) -> (r:
        Result<SaveCategoryStatus, RepositoryError>)
        requires
            old(self).wf(),
        ensures
            final(self).wf(),
            cat_model(final(self).categories@) == spec_upsert(
                cat_model(old(self).categories@),
                category.title@,
                active,
            ),
            r == Ok::<SaveCategoryStatus, RepositoryError>(
                spec_upsert_status(cat_model(old(self).categories@), category.title@, active),
            ),
            final(self).questions@ == old(self).questions@,
            final(self).choices@ == old(self).choices@,
            final(self).next_question_id == old(self).next_question_id,
            final(self).next_choice_id == old(self).next_choice_id,
            final(self).question_insert_fails == old(self).question_insert_fails,
            final(self).choices_insert_fails == old(self).choices_insert_fails,
    {
        let ghost cats0 = cat_model(old(self).categories@);
        match self.find_category(category.title.as_str()) {
            Some(i) => {
                proof {
                    assert(cats0[i as int].name == category.title@);
                    assert(model_has(cats0, category.title@));
                }
                match active {
                    Some(a) => {
                        self.categories[i].active = a;
                        proof {
                            assert forall|k: int|
                                0 <= k < cats0.len() && k != i implies cats0[k].name
                                != category.title@ by {
                                assert(old(self).categories@[k].name@ != old(
                                    self,
                                ).categories@[i as int].name@);
                            }
                            assert(cat_model(self.categories@) =~= spec_set_active(
                                cats0,
                                category.title@,
                                a,
                            ));
                        }
                        Ok(SaveCategoryStatus::Created)
                    },
                    None => Ok(SaveCategoryStatus::Exists),
                }
            },
            None => {
                proof {
                    assert(!model_has(cats0, category.title@));
                }
                let flag = match active {
                    Some(a) => a,
                    None => false,
                };
                self.categories.push(CategoryRow { name: category.title.clone(), active: flag });
                proof {
                    assert(cat_model(self.categories@) =~= spec_upsert(
                        cats0,
                        category.title@,
                        active,
                    ));
                }
                Ok(SaveCategoryStatus::Created)
            },
        }
    }

    /// `UPDATE categories SET active = $2 WHERE name = $1`: updates the
    /// active flag of an existing category and returns the value now in
    /// effect; fails with `NotFound` when no row matches, leaving the store
    /// untouched.
    pub fn set_category_active(&mut self, category: &str, active: bool) -> (r: Result<
        bool,
        RepositoryError,
    >)
        requires
            old(self).wf(),
        ensures
            final(self).wf(),
            model_has(cat_model(old(self).categories@), category@) ==> r == Ok::<
                bool,
                RepositoryError,
            >(active) && cat_model(final(self).categories@) == spec_set_active(
                cat_model(old(self).categories@),
                category@,
                active,
            ),
            !model_has(cat_model(old(self).categories@), category@) ==> r == Err::<
                bool,
                RepositoryError,
            >(RepositoryError::NotFound) && *final(self) == *old(self),
            final(self).questions@ == old(self).questions@,
            final(self).choices@ == old(self).choices@,
            final(self).next_question_id == old(self).next_question_id,
            final(self).next_choice_id == old(self).next_choice_id,
            final(self).question_insert_fails == old(self).question_insert_fails,
            final(self).choices_insert_fails == old(self).choices_insert_fails,
    {
        let ghost cats0 = cat_model(old(self).categories@);
        match self.find_category(category) {
            Some(i) => {
                proof {
                    assert(cats0[i as int].name == category@);
                    assert(model_has(cats0, category@));
                }
                self.categories[i].active = active;
                proof {
                    assert forall|k: int|
                        0 <= k < cats0.len() && k != i implies cats0[k].name != category@ by {
                        assert(old(self).categories@[k].name@ != old(
                            self,
                        ).categories@[i as int].name@);
                    }
                    assert(cat_model(self.categories@) =~= spec_set_active(
                        cats0,
                        category@,
                        active,
                    ));
                }
                Ok(active)
            },
            None => {
                proof {
                    assert(!model_has(cats0, category@));
                }
                Err(RepositoryError::NotFound)
            },
        }
    }

    /// Creates a question and all its choices as one transaction: the
    /// question row is inserted first, then every choice in one bulk
    /// statement, and the whole unit commits or rolls back together.  On
    /// success the returned question is the input with every id populated,
    /// choices in their original order.  If either insert statement fails
    /// (the injection switches stand in for a constraint violation), the
    /// transaction is rolled back and the store is exactly as before: the
    /// question row never becomes observable without its choices.
    pub fn save_question(&mut self, question: &Question) -> (r: Result<Question, RepositoryError>)
        requires
            old(self).wf(),
            question.choices@.len() >= 1,
            old(self).next_question_id < i64::MAX,
            old(self).next_choice_id + question.choices@.len() <= i64::MAX,
        ensures
            final(self).wf(),
            final(self).categories@ == old(self).categories@,
            final(self).question_insert_fails == old(self).question_insert_fails,
            final(self).choices_insert_fails == old(self).choices_insert_fails,
            old(self).question_insert_fails || old(self).choices_insert_fails ==> {
                &&& r matches Err(RepositoryError::DatabaseError(_))
                &&& final(self).questions@ == old(self).questions@
                &&& final(self).choices@ == old(self).choices@
                &&& final(self).next_question_id == old(self).next_question_id
                &&& final(self).next_choice_id == old(self).next_choice_id
            },
            !old(self).question_insert_fails && !old(self).choices_insert_fails ==> {
                &&& r matches Ok(saved) && {
                    &&& saved.id == Some(old(self).next_question_id)
                    &&& saved.question@ == question.question@
                    &&& saved.category@ == question.category@
                    &&& saved.choices@.len() == question.choices@.len()
                    &&& forall|k: int|
                        0 <= k < question.choices@.len() ==> {
                            &&& (#[trigger] saved.choices@[k]).id == Some(
                                (old(self).next_choice_id + k) as i64,
                            )
                            &&& saved.choices@[k].title@ == question.choices@[k].title@
                            &&& saved.choices@[k].correct == question.choices@[k].correct
                        }
                }
                &&& final(self).questions@.len() == old(self).questions@.len() + 1
                &&& final(self).questions@.drop_last() == old(self).questions@
                &&& final(self).questions@.last().id == old(self).next_question_id
                &&& final(self).questions@.last().text@ == question.question@
                &&& final(self).questions@.last().category@ == question.category@
                &&& final(self).choices@.len() == old(self).choices@.len()
                    + question.choices@.len()
                &&& final(self).choices@.take(old(self).choices@.len() as int) == old(
                    self,
                ).choices@
                &&& forall|k: int|
                    0 <= k < question.choices@.len() ==> {
                        let row = #[trigger] final(self).choices@[old(self).choices@.len() + k];
                        &&& row.id == old(self).next_choice_id + k
                        &&& row.question_id == old(self).next_question_id
                        &&& row.title@ == question.choices@[k].title@
                        &&& row.correct == question.choices@[k].correct
                    }
                &&& final(self).next_question_id == old(self).next_question_id + 1
                &&& final(self).next_choice_id == old(self).next_choice_id
                    + question.choices@.len()
            },
    {
        if self.question_insert_fails {
            // the question insert statement fails: nothing was written yet
            return Err(
                RepositoryError::DatabaseError(String::from_str("insert question failed")),
            );
        }
        let qid = self.next_question_id;
        self.questions.push(
            QuestionRow {
                id: qid,
                text: question.question.clone(),
                category: question.category.clone(),
            },
        );
        if self.choices_insert_fails {
            // the bulk choices insert fails: roll the transaction back, so
            // the question row inserted above does not persist
            let _ = self.questions.pop();
            proof {
                assert(self.questions@ =~= old(self).questions@);
            }
            return Err(
                RepositoryError::DatabaseError(String::from_str("insert choices failed")),
            );
        }
        let n = question.choices.len();
        let ghost choices0 = old(self).choices@;
        let mut ids: Vec<i64> = Vec::new();
        let mut k: usize = 0;
        while k < n
            invariant
                k <= n,
                n == question.choices@.len(),
                self.next_choice_id == old(self).next_choice_id,
                self.next_choice_id + n <= i64::MAX,
                ids@.len() == k,
                forall|j: int| 0 <= j < k ==> #[trigger] ids@[j] == old(self).next_choice_id + j,
                1 <= self.next_choice_id,
                self.choices@.len() == choices0.len() + k,
                self.choices@.take(choices0.len() as int) == choices0,
                forall|j: int|
                    choices0.len() <= j < self.choices@.len() ==> {
                        let row = #[trigger] self.choices@[j];
                        &&& row.id == old(self).next_choice_id + (j - choices0.len())
                        &&& row.question_id == qid
                        &&& row.title@ == question.choices@[j - choices0.len()].title@
                        &&& row.correct == question.choices@[j - choices0.len()].correct
                    },
                forall|i: int|
                    0 <= i < choices0.len() ==> 1 <= #[trigger] self.choices@[i].id < old(
                        self,
                    ).next_choice_id,
                self.questions@ == old(self).questions@.push(self.questions@.last()),
                self.questions@.last().id == qid,
                self.questions@.last().text@ == question.question@,
                self.questions@.last().category@ == question.category@,
                self.categories@ == old(self).categories@,
                self.next_question_id == old(self).next_question_id,
                qid == old(self).next_question_id,
                self.question_insert_fails == old(self).question_insert_fails,
                self.choices_insert_fails == old(self).choices_insert_fails,
            decreases n - k,
        {
            let cid: i64 = self.next_choice_id + (k as i64);
            ids.push(cid);
            self.choices.push(
                ChoiceRow {
                    id: cid,
                    question_id: qid,
                    title: question.choices[k].title.clone(),
                    correct: question.choices[k].correct,
                },
            );
            proof {
                assert(self.choices@.take(choices0.len() as int) =~= choices0);
            }
            k = k + 1;
        }
        self.next_question_id = qid + 1;
        self.next_choice_id = self.next_choice_id + (n as i64);
        let saved_choices = attach_choice_ids(&question.choices, &ids);
        proof {
            assert(self.questions@.drop_last() =~= old(self).questions@);
            let l = old(self).choices@.len() as int;
            assert forall|i: int, j: int|
                0 <= i < j < self.choices@.len() implies self.choices@[i].id
                < self.choices@[j].id by {
                if i < l {
                    assert(self.choices@[i] == old(self).choices@[i]);
                }
                if j < l {
                    assert(self.choices@[j] == old(self).choices@[j]);
                }
            }
            assert forall|i: int, j: int|
                0 <= i < j < self.questions@.len() implies self.questions@[i].id
                < self.questions@[j].id by {
                if j < self.questions@.len() - 1 {
                    assert(self.questions@[j] == old(self).questions@[j]);
                }
                if i < self.questions@.len() - 1 {
                    assert(self.questions@[i] == old(self).questions@[i]);
                }
            }
        }
        Ok(
            Question {
                id: Some(qid),
                question: question.question.clone(),
                category: question.category.clone(),
                choices: saved_choices,
            },
        )
    }

    /// Whether the category named `category` exists and is active; under
    /// well-formedness this agrees with the spec-level activity test.
    fn category_is_active(&self, category: &str) -> (r: bool)
        requires
            self.wf(),
        ensures
            r == spec_category_active(*self, category@),
    {
        match self.find_category(category) {
            Some(i) => {
                let active = self.categories[i].active;
                proof {
                    if active {
                        assert(spec_category_active(*self, category@));
                    } else {
                        if spec_category_active(*self, category@) {
                            let j = choose|j: int|
                                0 <= j < self.categories@.len() && self.categories@[j].name@
                                    == category@ && self.categories@[j].active;
                            if j != i {
                                assert(self.categories@[if j < i {
                                    j
                                } else {
                                    i as int
                                }].name@ != self.categories@[if j < i {
                                    i as int
                                } else {
                                    j
                                }].name@);
                            }
                        }
                    }
                }
                active
            },
            None => {
                proof {
                    assert(!spec_category_active(*self, category@));
                }
                false
            },
        }
    }

    /// `SELECT COUNT(q.id) FROM questions q INNER JOIN categories c ON
    /// c.name = q.category WHERE c.name = $1 AND c.active = TRUE`: the
    /// number of questions of `category`, zero when the category is absent
    /// or inactive.
    pub fn count_questions(&self, category: &str) -> (r: Result<i64, RepositoryError>)
        requires
            self.wf(),
        ensures
            r == Ok::<i64, RepositoryError>(questions_in(*self, category@).len() as i64),
    {
        proof {
            lemma_wf_questions_len(*self);
        }
        if !self.category_is_active(category) {
            return Ok(0);
        }
        let n = self.questions.len();
        let mut count: i64 = 0;
        let mut i: usize = 0;
        while i < n
            invariant
                i <= n,
                n == self.questions@.len(),
                n <= i64::MAX,
                0 <= count <= i,
                count == matching_questions(self.questions@.take(i as int), category@).len(),
            decreases n - i,
        {
            proof {
                assert(self.questions@.take(i + 1) =~= self.questions@.take(i as int).push(
                    self.questions@[i as int],
                ));
                lemma_matching_push(
                    self.questions@.take(i as int),
                    category@,
                    self.questions@[i as int],
                );
            }
            if str_eq(self.questions[i].category.as_str(), category) {
                count = count + 1;
            }
            i = i + 1;
        }
        proof {
            assert(self.questions@.take(n as int) =~= self.questions@);
        }
        Ok(count)
    }

    /// The choices belonging to question `question_id`, in table order, as
    /// in-memory values with their ids populated.
    fn choices_for(&self, question_id: i64) -> (v: Vec<Choice>)
        ensures
            v@.len() == choice_rows_of(self.choices@, question_id).len(),
            forall|j: int|
                0 <= j < v@.len() ==> choice_matches_row(
                    #[trigger] v@[j],
                    choice_rows_of(self.choices@, question_id)[j],
                ),
    {
        group_choices(&self.choices, question_id)
    }

    /// One page of a category's questions: up to `size` question rows
    /// starting at the page's offset, in id order, each with its choices
    /// attached in their own order.  A request for page zero reads from the
    /// start; a category that is absent or inactive yields no rows.
    pub fn get_questions(&self, category: &str, page: i64, size: i64) -> (r: Result<
        Vec<Question>,
        RepositoryError,
    >)
        requires
            self.wf(),
            0 <= page,
            0 <= size,
            page >= 1 ==> (page - 1) * size <= i64::MAX,
        ensures
            r matches Ok(v) && {
                let sel = page_slice(
                    questions_in(*self, category@),
                    spec_offset(page as int, size as int),
                    size as int,
                );
                &&& v@.len() == sel.len()
                &&& forall|k: int|
                    0 <= k < sel.len() ==> question_matches_row(
                        #[trigger] v@[k],
                        sel[k],
                        self.choices@,
                    )
            },
    {
        proof {
            lemma_wf_questions_len(*self);
        }
        if !self.category_is_active(category) {
            return Ok(Vec::new());
        }
        let offset: i64 = if page == 0 {
            0
        } else {
            (page - 1) * size
        };
        let n = self.questions.len();
        let mut out: Vec<Question> = Vec::new();
        let mut matched: i64 = 0;
        let mut i: usize = 0;
        while i < n
            invariant
                i <= n,
                n == self.questions@.len(),
                n <= i64::MAX,
                0 <= matched <= i,
                0 <= offset,
                0 <= size,
                offset == spec_offset(page as int, size as int),
                matched == matching_questions(self.questions@.take(i as int), category@).len(),
                out@.len() == page_slice(
                    matching_questions(self.questions@.take(i as int), category@),
                    offset as int,
                    size as int,
                ).len(),
                out@.len() <= size,
                forall|k: int|
                    0 <= k < out@.len() ==> question_matches_row(
                        #[trigger] out@[k],
                        page_slice(
                            matching_questions(self.questions@.take(i as int), category@),
                            offset as int,
                            size as int,
                        )[k],
                        self.choices@,
                    ),
            decreases n - i,
        {
            let ghost pre = matching_questions(self.questions@.take(i as int), category@);
            proof {
                assert(self.questions@.take(i + 1) =~= self.questions@.take(i as int).push(
                    self.questions@[i as int],
                ));
                lemma_matching_push(
                    self.questions@.take(i as int),
                    category@,
                    self.questions@[i as int],
                );
                lemma_page_slice_push(
                    pre,
                    self.questions@[i as int],
                    offset as int,
                    size as int,
                );
            }
            if str_eq(self.questions[i].category.as_str(), category) {
                if matched >= offset && (out.len() as i64) < size {
                    let q = Question {
                        id: Some(self.questions[i].id),
                        question: self.questions[i].text.clone(),
                        category: self.questions[i].category.clone(),
                        choices: self.choices_for(self.questions[i].id),
                    };
                    out.push(q);
                }
                matched = matched + 1;
            }
            i = i + 1;
        }
        proof {
            assert(self.questions@.take(n as int) =~= self.questions@);
        }
        Ok(out)
    }

    /// `SELECT name FROM categories WHERE active = true`: the categories
    /// currently visible, in table order.
    pub fn list_categories(&self) -> (r: Result<Categories, RepositoryError>)
        ensures
            r matches Ok(cs) && {
                let names = active_names(cat_model(self.categories@));
                &&& cs.categories@.len() == names.len()
                &&& forall|k: int|
                    0 <= k < names.len() ==> #[trigger] cs.categories@[k].title@ == names[k]
            },
    {
        let n = self.categories.len();
        let mut out: Vec<Category> = Vec::new();
        let mut i: usize = 0;
        while i < n
            invariant
                i <= n,
                n == self.categories@.len(),
                out@.len() == active_names(cat_model(self.categories@.take(i as int))).len(),
                forall|k: int|
                    0 <= k < out@.len() ==> #[trigger] out@[k].title@ == active_names(
                        cat_model(self.categories@.take(i as int)),
                    )[k],
            decreases n - i,
        {
            let ghost pre = cat_model(self.categories@.take(i as int));
            let ghost row = CategoryModel {
                name: self.categories@[i as int].name@,
                active: self.categories@[i as int].active,
            };
            proof {
                assert(cat_model(self.categories@.take(i + 1)) =~= pre.push(row));
                lemma_filter_push(pre, |c: CategoryModel| c.active, row);
            }
            if self.categories[i].active {
                out.push(Category { title: self.categories[i].name.clone() });
            }
            i = i + 1;
        }
        proof {
            assert(self.categories@.take(n as int) =~= self.categories@);
        }
        Ok(Categories { categories: out })
    }
}

/// Whether the store has a category named `cat` that is active.
pub open spec fn spec_category_active(db: Database, cat: Seq<char>) -> bool {
    exists|i: int|
        0 <= i < db.categories@.len() && db.categories@[i].name@ == cat
            && db.categories@[i].active
}

/// The question rows of `rows` whose category name is `cat`, in table order.
pub open spec fn matching_questions(rows: Seq<QuestionRow>, cat: Seq<char>) -> Seq<QuestionRow> {
    rows.filter(|q: QuestionRow| q.category@ == cat)
}

/// The question rows the read operations see for a category: its questions
/// in id order when the category is active, and nothing otherwise (the
/// queries join against the active flag).
pub open spec fn questions_in(db: Database, cat: Seq<char>) -> Seq<QuestionRow> {
    if spec_category_active(db, cat) {
        matching_questions(db.questions@, cat)
    } else {
        Seq::empty()
    }
}

/// The choice rows belonging to question `question_id`, in table order.
pub open spec fn choice_rows_of(choices: Seq<ChoiceRow>, question_id: i64) -> Seq<ChoiceRow> {
    choices.filter(|c: ChoiceRow| c.question_id == question_id)
}

/// An in-memory choice faithfully copies a choice row.
pub open spec fn choice_matches_row(c: Choice, row: ChoiceRow) -> bool {
    &&& c.id == Some(row.id)
    &&& c.title@ == row.title@
    &&& c.correct == row.correct
}

/// An in-memory question faithfully copies a question row, with exactly that
/// row's choices attached in table order.
pub open spec fn question_matches_row(q: Question, row: QuestionRow, choices: Seq<ChoiceRow>) -> bool {
    &&& q.id == Some(row.id)
    &&& q.question@ == row.text@
    &&& q.category@ == row.category@
    &&& q.choices@.len() == choice_rows_of(choices, row.id).len()
    &&& forall|j: int|
        0 <= j < q.choices@.len() ==> choice_matches_row(
            #[trigger] q.choices@[j],
            choice_rows_of(choices, row.id)[j],
        )
}

/// The offset of a page: page 0 is a defined edge case meaning no offset,
/// page p of size s starts after (p - 1) * s records.
pub open spec fn spec_offset(page: int, size: int) -> int {
    if page == 0 {
        0
    } else {
        (page - 1) * size
    }
}

/// Up to `size` elements of `s` starting at `offset`.
pub open spec fn page_slice<A>(s: Seq<A>, offset: int, size: int) -> Seq<A> {
    if offset >= s.len() {
        Seq::empty()
    } else if offset + size <= s.len() {
        s.subrange(offset, offset + size)
    } else {
        s.subrange(offset, s.len() as int)
    }
}

/// With strictly increasing ids starting at 1, row `k` has id at least
/// `k + 1`.
proof fn lemma_increasing_ids_ge(rows: Seq<QuestionRow>, k: int)
    requires
        forall|i: int, j: int|
            0 <= i < j < rows.len() ==> #[trigger] rows[i].id < #[trigger] rows[j].id,
        forall|i: int| 0 <= i < rows.len() ==> 1 <= #[trigger] rows[i].id,
        0 <= k < rows.len(),
    ensures
        rows[k].id >= k + 1,
    decreases k,
{
    if k > 0 {
        lemma_increasing_ids_ge(rows, k - 1);
        assert(rows[k - 1].id < rows[k].id);
    }
}

/// A well-formed questions table cannot outgrow the id space: its ids are
/// strictly increasing, positive, and below the next identity value.
proof fn lemma_wf_questions_len(db: Database)
    requires
        db.wf(),
    ensures
        db.questions@.len() <= i64::MAX,
{
    if db.questions@.len() > i64::MAX {
        lemma_increasing_ids_ge(db.questions@, i64::MAX as int);
        assert(db.questions@[i64::MAX as int].id < db.next_question_id);
    }
}

proof fn lemma_matching_push(rows: Seq<QuestionRow>, cat: Seq<char>, x: QuestionRow)
    ensures
        matching_questions(rows.push(x), cat) == if x.category@ == cat {
            matching_questions(rows, cat).push(x)
        } else {
            matching_questions(rows, cat)
        },
{
    reveal(Seq::filter);
    assert(rows.push(x).drop_last() =~= rows);
}

proof fn lemma_choice_rows_push(choices: Seq<ChoiceRow>, question_id: i64, x: ChoiceRow)
    ensures
        choice_rows_of(choices.push(x), question_id) == if x.question_id == question_id {
            choice_rows_of(choices, question_id).push(x)
        } else {
            choice_rows_of(choices, question_id)
        },
{
    reveal(Seq::filter);
    assert(choices.push(x).drop_last() =~= choices);
}

proof fn lemma_page_slice_push<A>(s: Seq<A>, x: A, offset: int, size: int)
    requires
        0 <= offset,
        0 <= size,
    ensures
        s.len() < offset ==> page_slice(s.push(x), offset, size) == page_slice(s, offset, size),
        offset <= s.len() < offset + size ==> page_slice(s.push(x), offset, size) == page_slice(
            s,
            offset,
            size,
        ).push(x),
        offset + size <= s.len() ==> page_slice(s.push(x), offset, size) == page_slice(
            s,
            offset,
            size,
        ),
{
    if s.len() < offset {
        assert(page_slice(s.push(x), offset, size) =~= page_slice(s, offset, size));
    } else if s.len() < offset + size {
        assert(page_slice(s.push(x), offset, size) =~= page_slice(s, offset, size).push(x));
    } else {
        assert(page_slice(s.push(x), offset, size) =~= page_slice(s, offset, size));
    }
}

/// The choices of question `question_id` picked out of a batch of fetched
/// choice rows, in row order, as in-memory values with their ids populated.
pub fn group_choices(choice_rows: &Vec<ChoiceRow>, question_id: i64) -> (v: Vec<Choice>)
    ensures
        v@.len() == choice_rows_of(choice_rows@, question_id).len(),
        forall|j: int|
            0 <= j < v@.len() ==> choice_matches_row(
                #[trigger] v@[j],
                choice_rows_of(choice_rows@, question_id)[j],
            ),
{
    let n = choice_rows.len();
    let mut v: Vec<Choice> = Vec::new();
    let mut i: usize = 0;
    while i < n
        invariant
            i <= n,
            n == choice_rows@.len(),
            v@.len() == choice_rows_of(choice_rows@.take(i as int), question_id).len(),
            forall|j: int|
                0 <= j < v@.len() ==> choice_matches_row(
                    #[trigger] v@[j],
                    choice_rows_of(choice_rows@.take(i as int), question_id)[j],
                ),
        decreases n - i,
    {
        proof {
            assert(choice_rows@.take(i + 1) =~= choice_rows@.take(i as int).push(
                choice_rows@[i as int],
            ));
            lemma_choice_rows_push(
                choice_rows@.take(i as int),
                question_id,
                choice_rows@[i as int],
            );
        }
        if choice_rows[i].question_id == question_id {
            v.push(
                Choice {
                    id: Some(choice_rows[i].id),
                    title: choice_rows[i].title.clone(),
                    correct: choice_rows[i].correct,
                },
            );
        }
        i = i + 1;
    }
    proof {
        assert(choice_rows@.take(n as int) =~= choice_rows@);
    }
    v
}

/// Attaches to each fetched question row its group of fetched choice rows,
/// keeping the question rows' order: element i of the result copies
/// question row i with exactly its choices, in their own order.
pub fn assemble_questions(question_rows: &Vec<QuestionRow>, choice_rows: &Vec<ChoiceRow>) -> (v:
    Vec<Question>)
    ensures
        v@.len() == question_rows@.len(),
        forall|i: int|
            0 <= i < v@.len() ==> question_matches_row(
                #[trigger] v@[i],
                question_rows@[i],
                choice_rows@,
            ),
{
    let n = question_rows.len();
    let mut v: Vec<Question> = Vec::new();
    let mut i: usize = 0;
    while i < n
        invariant
            i <= n,
            n == question_rows@.len(),
            v@.len() == i,
            forall|j: int|
                0 <= j < i ==> question_matches_row(
                    #[trigger] v@[j],
                    question_rows@[j],
                    choice_rows@,
                ),
        decreases n - i,
    {
        v.push(
            Question {
                id: Some(question_rows[i].id),
                question: question_rows[i].text.clone(),
                category: question_rows[i].category.clone(),
                choices: group_choices(choice_rows, question_rows[i].id),
            },
        );
        i = i + 1;
    }
    v
}

/// Builds the choices sequence with generated ids zipped back onto the input
/// choices in their original order: element k of the result copies element k
/// of `choices` with `ids[k]` as its id.  As with a zip, the result stops at
/// the shorter of the two inputs.
pub fn attach_choice_ids(choices: &Vec<Choice>, ids: &Vec<i64>) -> (v: Vec<Choice>)
    ensures
        v@.len() == if choices@.len() <= ids@.len() {
            choices@.len()
        } else {
            ids@.len()
        },
        forall|k: int|
            0 <= k < v@.len() ==> {
                &&& (#[trigger] v@[k]).id == Some(ids@[k])
                &&& v@[k].title@ == choices@[k].title@
                &&& v@[k].correct == choices@[k].correct
            },
{
    let mut v: Vec<Choice> = Vec::new();
    let mut k: usize = 0;
    while k < choices.len() && k < ids.len()
        invariant
            k <= choices@.len(),
            k <= ids@.len(),
            v@.len() == k,
            forall|j: int|
                0 <= j < k ==> {
                    &&& (#[trigger] v@[j]).id == Some(ids@[j])
                    &&& v@[j].title@ == choices@[j].title@
                    &&& v@[j].correct == choices@[j].correct
                },
        decreases choices@.len() - k,
    {
        v.push(
            Choice {
                id: Some(ids[k]),
                title: choices[k].title.clone(),
                correct: choices[k].correct,
            },
        );
        k = k + 1;
    }
    v
}

/// Category names are pairwise distinct.
pub open spec fn model_unique(cats: Seq<CategoryModel>) -> bool {
    forall|i: int, j: int|
        0 <= i < j < cats.len() ==> #[trigger] cats[i].name != #[trigger] cats[j].name
}

/// With pairwise-distinct names, a title occurs exactly once or not at all.
proof fn lemma_unique_count(cats: Seq<CategoryModel>, title: Seq<char>)
    requires
        model_unique(cats),
    ensures
        model_count(cats, title) == if model_has(cats, title) {
            1int
        } else {
            0int
        },
    decreases cats.len(),
{
    reveal(Seq::filter);
    if cats.len() == 0 {
        assert(!model_has(cats, title));
    } else {
        let rest = cats.drop_last();
        let last = cats.last();
        assert(forall|i: int| 0 <= i < rest.len() ==> rest[i] == cats[i]);
        lemma_unique_count(rest, title);
        if last.name == title {
            assert(!model_has(rest, title)) by {
                if model_has(rest, title) {
                    let i = choose|i: int| 0 <= i < rest.len() && rest[i].name == title;
                    assert(cats[i].name != cats[cats.len() - 1].name);
                }
            }
            assert(model_has(cats, title)) by {
                assert(cats[cats.len() - 1].name == title);
            }
        } else {
            assert(model_has(cats, title) == model_has(rest, title)) by {
                if model_has(cats, title) {
                    let i = choose|i: int| 0 <= i < cats.len() && cats[i].name == title;
                    assert(rest[i].name == title);
                }
            }
        }
    }
}

/// Law: upserting a category title twice (without an active value) leaves
/// exactly one row with that title, and the second upsert changes nothing
/// and reports `Exists`, not `Created`.
pub proof fn lemma_upsert_idempotent(cats: Seq<CategoryModel>, title: Seq<char>)
    requires
        model_unique(cats),
    ensures
        spec_upsert(spec_upsert(cats, title, None), title, None) == spec_upsert(cats, title, None),
        model_count(spec_upsert(cats, title, None), title) == 1,
        spec_upsert_status(spec_upsert(cats, title, None), title, None)
            == SaveCategoryStatus::Exists,
{
    let once = spec_upsert(cats, title, None);
    if model_has(cats, title) {
        lemma_unique_count(cats, title);
    } else {
        let row = CategoryModel { name: title, active: false };
        lemma_unique_count(cats, title);
        lemma_filter_push(cats, |c: CategoryModel| c.name == title, row);
        assert(once[cats.len() as int] == row);
        assert(model_has(once, title));
    }
}

/// Law: activate-overwrite semantics.  Upserting a title with an active
/// value of true and then again with false leaves exactly one row for that
/// title, and that row is inactive.
pub proof fn lemma_upsert_overwrite(cats: Seq<CategoryModel>, title: Seq<char>)
    requires
        model_unique(cats),
    ensures
        ({
            let twice = spec_upsert(spec_upsert(cats, title, Some(true)), title, Some(false));
            &&& model_count(twice, title) == 1
            &&& forall|i: int|
                0 <= i < twice.len() && #[trigger] twice[i].name == title ==> !twice[i].active
        }),
{
    let once = spec_upsert(cats, title, Some(true));
    let twice = spec_upsert(once, title, Some(false));
    if model_has(cats, title) {
        let i = choose|i: int| 0 <= i < cats.len() && cats[i].name == title;
        assert(once[i].name == title);
        assert(model_has(once, title));
    } else {
        assert(once[cats.len() as int].name == title);
        assert(model_has(once, title));
        assert(forall|i: int|
            0 <= i < cats.len() ==> #[trigger] cats[i].name != title);
    }
    assert(model_unique(once)) by {
        assert(forall|i: int|
            0 <= i < cats.len() ==> #[trigger] once[i].name == cats[i].name);
    }
    assert(model_unique(twice)) by {
        assert(forall|i: int|
            0 <= i < once.len() ==> #[trigger] twice[i].name == once[i].name);
    }
    assert(model_has(twice, title)) by {
        let i = choose|i: int| 0 <= i < once.len() && once[i].name == title;
        assert(twice[i].name == title);
    }
    lemma_unique_count(twice, title);
}

} // verus!
