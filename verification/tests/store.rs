use quizzical::models::{Category, Choice, Question};
use quizzical::repositories::{Database, RepositoryError, SaveCategoryStatus};
use quizzical::sql::{choice_params, choices_insert_statement, SqlParam};

fn science() -> Category {
    Category {
        title: "Science".into(),
    }
}

fn question(text: &str, category: &str, choices: &[(&str, bool)]) -> Question {
    Question {
        id: None,
        question: text.into(),
        category: category.into(),
        choices: choices
            .iter()
            .map(|(title, correct)| Choice {
                id: None,
                title: (*title).into(),
                correct: *correct,
            })
            .collect(),
    }
}

#[test]
fn test_upsert_twice_keeps_one_row_and_reports_exists() {
    let mut db = Database::new();
    let first = db.save_category(&science()).unwrap();
    let second = db.save_category(&science()).unwrap();
    assert_eq!(first, SaveCategoryStatus::Created);
    assert_eq!(second, SaveCategoryStatus::Exists);
    assert_eq!(db.categories.len(), 1);
    assert_eq!(db.categories[0].name, "Science");
}

#[test]
fn test_upsert_without_active_leaves_flag_alone() {
    let mut db = Database::new();
    db.save_category_and_set_active(&science(), Some(true)).unwrap();
    db.save_category(&science()).unwrap();
    assert_eq!(db.categories.len(), 1);
    assert!(db.categories[0].active);
}

#[test]
fn test_activate_overwrite_leaves_one_inactive_row() {
    let mut db = Database::new();
    db.save_category_and_set_active(&science(), Some(true)).unwrap();
    db.save_category_and_set_active(&science(), Some(false)).unwrap();
    assert_eq!(db.categories.len(), 1);
    assert_eq!(db.categories[0].name, "Science");
    assert!(!db.categories[0].active);
}

#[test]
fn test_set_category_active_updates_existing_row() {
    let mut db = Database::new();
    db.save_category(&science()).unwrap();
    assert!(!db.categories[0].active);
    let now = db.set_category_active("Science", true).unwrap();
    assert!(now);
    assert!(db.categories[0].active);
}

#[test]
fn test_set_category_active_missing_row_is_not_found() {
    let mut db = Database::new();
    let r = db.set_category_active("Nowhere", true);
    assert!(matches!(r, Err(RepositoryError::NotFound)));
    assert_eq!(db.categories.len(), 0);
}

#[test]
fn test_list_categories_returns_only_active_ones() {
    let mut db = Database::new();
    db.save_category_and_set_active(
        &Category {
            title: "Science".into(),
        },
        Some(true),
    )
    .unwrap();
    db.save_category_and_set_active(
        &Category {
            title: "History".into(),
        },
        Some(false),
    )
    .unwrap();
    db.save_category_and_set_active(
        &Category {
            title: "Joke".into(),
        },
        Some(true),
    )
    .unwrap();
    let listed = db.list_categories().unwrap();
    let names: Vec<String> = listed.categories.into_iter().map(|c| c.title).collect();
    assert_eq!(names, vec!["Science".to_string(), "Joke".to_string()]);
}

#[test]
fn test_save_question_populates_every_id_in_input_order() {
    let mut db = Database::new();
    db.save_category_and_set_active(&science(), Some(true)).unwrap();
    let q = question(
        "Why did the chicken cross the road",
        "Science",
        &[("To get to the other side", true), ("To commit suicide", false)],
    );
    let saved = db.save_question(&q).unwrap();
    assert_eq!(saved.id, Some(1));
    assert_eq!(saved.question, "Why did the chicken cross the road");
    assert_eq!(saved.category, "Science");
    assert_eq!(saved.choices.len(), 2);
    assert_eq!(saved.choices[0].id, Some(1));
    assert_eq!(saved.choices[0].title, "To get to the other side");
    assert!(saved.choices[0].correct);
    assert_eq!(saved.choices[1].id, Some(2));
    assert_eq!(saved.choices[1].title, "To commit suicide");
    assert!(!saved.choices[1].correct);
}

#[test]
fn test_failed_choices_insert_rolls_back_question_row() {
    let mut db = Database::new();
    db.save_category_and_set_active(&science(), Some(true)).unwrap();
    db.choices_insert_fails = true;
    let q = question("Will this persist", "Science", &[("No", true)]);
    let r = db.save_question(&q);
    assert!(matches!(r, Err(RepositoryError::DatabaseError(_))));
    // re-query: the question row from the failed call must not exist
    assert_eq!(db.questions.len(), 0);
    assert_eq!(db.choices.len(), 0);
    assert_eq!(db.count_questions("Science").unwrap(), 0);
    assert!(db.get_questions("Science", 1, 10).unwrap().is_empty());
}

#[test]
fn test_failed_question_insert_changes_nothing() {
    let mut db = Database::new();
    db.question_insert_fails = true;
    let q = question("Will this persist", "Science", &[("No", true)]);
    let r = db.save_question(&q);
    assert!(matches!(r, Err(RepositoryError::DatabaseError(_))));
    assert_eq!(db.questions.len(), 0);
    assert_eq!(db.choices.len(), 0);
}

#[test]
fn test_count_questions_ignores_inactive_category() {
    let mut db = Database::new();
    db.save_category_and_set_active(&science(), Some(true)).unwrap();
    db.save_question(&question("Q1", "Science", &[("A", true)])).unwrap();
    assert_eq!(db.count_questions("Science").unwrap(), 1);
    db.set_category_active("Science", false).unwrap();
    assert_eq!(db.count_questions("Science").unwrap(), 0);
    assert_eq!(db.count_questions("Missing").unwrap(), 0);
}

#[test]
fn test_twelve_questions_page_two_of_five() {
    let mut db = Database::new();
    db.save_category_and_set_active(&science(), Some(true)).unwrap();
    for k in 1..=12 {
        let text = format!("Question {}", k);
        db.save_question(&question(&text, "Science", &[("A", true), ("B", false)]))
            .unwrap();
    }
    assert_eq!(db.count_questions("Science").unwrap(), 12);
    let page = db.get_questions("Science", 2, 5).unwrap();
    assert_eq!(page.len(), 5);
    let ids: Vec<i64> = page.iter().map(|q| q.id.unwrap()).collect();
    assert_eq!(ids, vec![6, 7, 8, 9, 10]);
    assert_eq!(page[0].question, "Question 6");
    assert_eq!(page[4].question, "Question 10");
    for q in &page {
        assert_eq!(q.category, "Science");
        assert_eq!(q.choices.len(), 2);
        assert_eq!(q.choices[0].title, "A");
        assert_eq!(q.choices[1].title, "B");
    }
}

#[test]
fn test_get_questions_page_zero_reads_from_start() {
    let mut db = Database::new();
    db.save_category_and_set_active(&science(), Some(true)).unwrap();
    for k in 1..=3 {
        let text = format!("Question {}", k);
        db.save_question(&question(&text, "Science", &[("A", false)])).unwrap();
    }
    let from_zero = db.get_questions("Science", 0, 2).unwrap();
    let from_one = db.get_questions("Science", 1, 2).unwrap();
    assert_eq!(from_zero.len(), 2);
    assert_eq!(from_zero[0].id, from_one[0].id);
    assert_eq!(from_zero[1].id, from_one[1].id);
}

#[test]
fn test_get_questions_beyond_end_is_empty() {
    let mut db = Database::new();
    db.save_category_and_set_active(&science(), Some(true)).unwrap();
    db.save_question(&question("Q1", "Science", &[("A", true)])).unwrap();
    assert!(db.get_questions("Science", 5, 10).unwrap().is_empty());
}

#[test]
fn test_choices_insert_statement_single_row() {
    assert_eq!(
        choices_insert_statement(1),
        "INSERT INTO choices (question_id, text, correct) VALUES ($1, $2, $3) RETURNING id"
    );
}

#[test]
fn test_choices_insert_statement_numbers_rows_consecutively() {
    assert_eq!(
        choices_insert_statement(2),
        "INSERT INTO choices (question_id, text, correct) VALUES ($1, $2, $3),($4, $5, $6) RETURNING id"
    );
    assert_eq!(
        choices_insert_statement(4),
        "INSERT INTO choices (question_id, text, correct) VALUES ($1, $2, $3),($4, $5, $6),($7, $8, $9),($10, $11, $12) RETURNING id"
    );
}

#[test]
fn test_choice_params_flattens_row_tuples() {
    let choices = vec![
        Choice {
            id: None,
            title: "A".into(),
            correct: true,
        },
        Choice {
            id: None,
            title: "B".into(),
            correct: false,
        },
    ];
    let params = choice_params(7, &choices);
    assert_eq!(params.len(), 6);
    assert!(matches!(params[0], SqlParam::Int(7)));
    assert!(matches!(&params[1], SqlParam::Text(t) if t == "A"));
    assert!(matches!(params[2], SqlParam::Flag(true)));
    assert!(matches!(params[3], SqlParam::Int(7)));
    assert!(matches!(&params[4], SqlParam::Text(t) if t == "B"));
    assert!(matches!(params[5], SqlParam::Flag(false)));
}
