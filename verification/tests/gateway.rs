use quizzical::apigateway::{
    APIErrorResponse, APIErrorSource, APIErrorType, APIGatewayEvent,
};
use quizzical::models::{Choice, Question, ValidationError};
use quizzical::repositories::RepositoryError;
use quizzical::text::str_eq;

fn event_with_query(pairs: &[(&str, &str)]) -> APIGatewayEvent {
    APIGatewayEvent {
        path: "/".into(),
        query: Some(
            pairs
                .iter()
                .map(|(k, v)| ((*k).to_string(), (*v).to_string()))
                .collect(),
        ),
        path_parameters: None,
        body: None,
    }
}

#[test]
fn test_get_query_finds_named_parameter() {
    let event = event_with_query(&[("category", "Joke"), ("page", "2")]);
    assert_eq!(event.get_query("category"), Some("Joke".to_string()));
    assert_eq!(event.get_query("page"), Some("2".to_string()));
    assert_eq!(event.get_query("size"), None);
}

#[test]
fn test_get_query_without_query_map_is_none() {
    let event = APIGatewayEvent {
        path: "/".into(),
        query: None,
        path_parameters: None,
        body: None,
    };
    assert_eq!(event.get_query("category"), None);
}

#[test]
fn test_get_path_param_finds_named_parameter() {
    let event = APIGatewayEvent {
        path: "/category/Science/activate".into(),
        query: None,
        path_parameters: Some(vec![("category".to_string(), "Science".to_string())]),
        body: None,
    };
    assert_eq!(event.get_path_param("category"), Some("Science".to_string()));
    assert_eq!(event.get_path_param("active"), None);
}

#[test]
fn test_validate_accepts_single_correct_choice() {
    let q = Question {
        id: None,
        question: "Q".into(),
        category: "C".into(),
        choices: vec![
            Choice {
                id: None,
                title: "A".into(),
                correct: true,
            },
            Choice {
                id: None,
                title: "B".into(),
                correct: false,
            },
        ],
    };
    assert!(Question::validate(&q).is_ok());
}

#[test]
fn test_validate_rejects_two_correct_choices() {
    let q = Question {
        id: None,
        question: "Q".into(),
        category: "C".into(),
        choices: vec![
            Choice {
                id: None,
                title: "A".into(),
                correct: true,
            },
            Choice {
                id: None,
                title: "B".into(),
                correct: true,
            },
        ],
    };
    match Question::validate(&q) {
        Err(ValidationError::Constraint { pointer, message }) => {
            assert_eq!(pointer, "/data/attribute/choices");
            assert_eq!(message, "Only one correct choice allowed");
        }
        Ok(()) => panic!("two correct choices must be rejected"),
    }
}

#[test]
fn test_repository_error_translation_codes() {
    let cases: Vec<(RepositoryError, u16, &str, &str)> = vec![
        (
            RepositoryError::ConnectionError("refused".into()),
            500,
            "db.connection",
            "Database Connection",
        ),
        (
            RepositoryError::DatabaseError("bad statement".into()),
            500,
            "db.execution",
            "Database Execution",
        ),
        (
            RepositoryError::ConversionError("not an int".into()),
            500,
            "db.data",
            "Database Data Error",
        ),
        (
            RepositoryError::IOError("pipe closed".into()),
            500,
            "db.io",
            "Database IO Error",
        ),
        (
            RepositoryError::UnknownError(None),
            500,
            "db",
            "Database Unknown Error",
        ),
        (RepositoryError::NotFound, 404, "db.not_found", "Not Found"),
    ];
    for (error, status, code, title) in cases {
        let r = APIErrorResponse::from_repository_error(error);
        assert_eq!(r.errors.len(), 1);
        assert_eq!(r.errors[0].status, status);
        assert_eq!(r.errors[0].code, code);
        assert_eq!(r.errors[0].title, title);
        assert_eq!(r.status_code(), status);
    }
}

#[test]
fn test_database_error_detail_names_the_engine() {
    let r = APIErrorResponse::from_repository_error(RepositoryError::DatabaseError(
        "relation missing".into(),
    ));
    assert_eq!(r.errors[0].detail, Some("psql relation missing".to_string()));
}

#[test]
fn test_error_type_translation_is_400_class() {
    let r = APIErrorResponse::from_error_type(APIErrorType::ParsingError {
        detail: Some("bad json".into()),
    });
    assert_eq!(r.errors[0].status, 400);
    assert_eq!(r.errors[0].code, "request.validation");
    assert_eq!(r.errors[0].detail, Some("bad json".to_string()));

    let r = APIErrorResponse::from_error_type(APIErrorType::QueryParameterError {
        parameter: "page".into(),
        detail: None,
    });
    assert_eq!(r.errors[0].status, 400);
    assert_eq!(r.errors[0].code, "request.validation.query");
    match &r.errors[0].source {
        Some(APIErrorSource::QueryParameter { parameter }) => assert_eq!(parameter, "page"),
        _ => panic!("query parameter errors must point at the parameter"),
    }

    let r = APIErrorResponse::from_error_type(APIErrorType::BodyParameterError {
        pointer: "/data/attribute/choices".into(),
        detail: Some("Only one correct choice allowed".into()),
    });
    assert_eq!(r.errors[0].status, 400);
    assert_eq!(r.errors[0].code, "request.validation.body");
    match &r.errors[0].source {
        Some(APIErrorSource::Pointer { pointer }) => {
            assert_eq!(pointer, "/data/attribute/choices")
        }
        _ => panic!("body parameter errors must point at the field"),
    }

    let r = APIErrorResponse::from_error_type(APIErrorType::ValidationError { detail: None });
    assert_eq!(r.errors[0].status, 400);
    assert_eq!(r.errors[0].code, "validation");

    let r = APIErrorResponse::from_error_type(APIErrorType::RepositoryError {
        repository_error: RepositoryError::NotFound,
    });
    assert_eq!(r.errors[0].status, 404);
}

#[test]
fn test_status_code_of_empty_error_body_is_500() {
    let r = APIErrorResponse { errors: vec![] };
    assert_eq!(r.status_code(), 500);
}

#[test]
fn test_str_eq_compares_characters() {
    assert!(str_eq("Science", "Science"));
    assert!(!str_eq("Science", "science"));
    assert!(!str_eq("Science", "Scienc"));
    assert!(str_eq("", ""));
}
