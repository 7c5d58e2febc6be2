//! Gateway-facing shapes: the event a handler receives, the response it
//! produces, and the structured error body, together with the translation
//! rule from the storage error taxonomy and the validation failures into
//! that externally-visible shape.

use vstd::prelude::*;
use vstd::string::StringExecFns;
use crate::repositories::RepositoryError;
use crate::text::str_eq;

verus! {

/// First value bound to `name` among `params`, scanning in order.
pub open spec fn spec_lookup(params: Seq<(String, String)>, name: Seq<char>) -> Option<Seq<char>>
    decreases params.len(),
{
    if params.len() == 0 {
        None
    } else if params[0].0@ == name {
        Some(params[0].1@)
    } else {
        spec_lookup(params.drop_first(), name)
    }
}

fn lookup_param(params: &Vec<(String, String)>, name: &str) -> (r: Option<String>)
    ensures
        match r {
            Some(v) => spec_lookup(params@, name@) == Some(v@),
            None => spec_lookup(params@, name@) is None,
        },
{
    let n = params.len();
    let mut i: usize = 0;
    proof {
        assert(params@.skip(0) =~= params@);
    }
    while i < n
        invariant
            i <= n,
            n == params@.len(),
            spec_lookup(params@, name@) == spec_lookup(params@.skip(i as int), name@),
        decreases n - i,
    {
        proof {
            assert(params@.skip(i as int)[0] == params@[i as int]);
            assert(params@.skip(i as int).drop_first() =~= params@.skip(i + 1));
        }
        if str_eq(params[i].0.as_str(), name) {
            return Some(params[i].1.clone());
        }
        i = i + 1;
    }
    proof {
        assert(params@.skip(n as int) =~= Seq::<(String, String)>::empty());
    }
    None
}

/// The inbound event: the request path, the query and path parameters as
/// name/value pairs, and the raw body.  The surrounding adapter fills it
/// from the transport's payload.
#[derive(Debug)]
pub struct APIGatewayEvent {
    pub path: String,
    pub query: Option<Vec<(String, String)>>,
    pub path_parameters: Option<Vec<(String, String)>>,
    pub body: Option<String>,
}

impl APIGatewayEvent {
    /// The value of query parameter `name`, if the event carries query
    /// parameters and one of them is so named.
    pub fn get_query(&self, name: &str) -> (r: Option<String>)
        ensures
            ({
                let looked = match self.query {
                    Some(q) => spec_lookup(q@, name@),
                    None => None,
                };
                match r {
                    Some(v) => looked == Some(v@),
                    None => looked is None,
                }
            }),
    {
        match &self.query {
            Some(q) => lookup_param(q, name),
            None => None,
        }
    }

    /// The value of path parameter `name`, if the event carries path
    /// parameters and one of them is so named.
    pub fn get_path_param(&self, name: &str) -> (r: Option<String>)
        ensures
            ({
                let looked = match self.path_parameters {
                    Some(p) => spec_lookup(p@, name@),
                    None => None,
                };
                match r {
                    Some(v) => looked == Some(v@),
                    None => looked is None,
                }
            }),
    {
        match &self.path_parameters {
            Some(p) => lookup_param(p, name),
            None => None,
        }
    }
}

/// The outbound response: a status code, response headers as name/value
/// pairs, and the serialized body the adapter will send.
#[derive(Debug)]
pub struct APIGatewayResponse {
    pub status_code: u16,
    pub headers: Vec<(String, String)>,
    pub body: String,
}

/// What the surrounding process hands a handler besides the event.
#[derive(Debug)]
pub struct Config {
    pub connection_string: String,
}

/// One structured error of the externally-visible error body.
#[derive(Debug)]
pub struct APIError {
    pub status: u16,
    pub code: String,
    pub title: String,
    pub detail: Option<String>,
    pub source: Option<APIErrorSource>,
}

/// Where in the request an error originated.
#[derive(Debug)]
pub enum APIErrorSource {
    Pointer { pointer: String },
    QueryParameter { parameter: String },
}

/// The error classes a handler reports before or around the store: body
/// parsing, query and body parameter problems, domain validation, and the
/// storage taxonomy.
#[derive(Debug)]
pub enum APIErrorType {
    ParsingError { detail: Option<String> },
    QueryParameterError { parameter: String, detail: Option<String> },
    BodyParameterError { pointer: String, detail: Option<String> },
    ValidationError { detail: Option<String> },
    RepositoryError { repository_error: RepositoryError },
}

/// Status of the structured error a storage failure translates to.
pub open spec fn db_error_status(e: RepositoryError) -> u16 {
    match e {
        RepositoryError::NotFound => 404u16,
        _ => 500u16,
    }
}

/// Stable code string of the structured error a storage failure translates
/// to.
pub open spec fn db_error_code(e: RepositoryError) -> Seq<char> {
    match e {
        RepositoryError::ConnectionError(_) => "db.connection"@,
        RepositoryError::DatabaseError(_) => "db.execution"@,
        RepositoryError::ConversionError(_) => "db.data"@,
        RepositoryError::IOError(_) => "db.io"@,
        RepositoryError::UnknownError(_) => "db"@,
        RepositoryError::NotFound => "db.not_found"@,
    }
}

/// Human title of the structured error a storage failure translates to.
pub open spec fn db_error_title(e: RepositoryError) -> Seq<char> {
    match e {
        RepositoryError::ConnectionError(_) => "Database Connection"@,
        RepositoryError::DatabaseError(_) => "Database Execution"@,
        RepositoryError::ConversionError(_) => "Database Data Error"@,
        RepositoryError::IOError(_) => "Database IO Error"@,
        RepositoryError::UnknownError(_) => "Database Unknown Error"@,
        RepositoryError::NotFound => "Not Found"@,
    }
}

/// Detail of the structured error a storage failure translates to: the
/// failure's own detail, with execution failures prefixed as coming from
/// the underlying engine.
pub open spec fn db_error_detail(e: RepositoryError) -> Option<Seq<char>> {
    match e {
        RepositoryError::ConnectionError(m) => Some(m@),
        RepositoryError::DatabaseError(m) => Some("psql "@ + m@),
        RepositoryError::ConversionError(m) => Some(m@),
        RepositoryError::IOError(m) => Some(m@),
        RepositoryError::UnknownError(m) => match m {
            Some(s) => Some(s@),
            None => None,
        },
        RepositoryError::NotFound => None,
    }
}

/// The externally-visible error body: a list of structured errors.
#[derive(Debug)]
pub struct APIErrorResponse {
    pub errors: Vec<APIError>,
}

impl APIErrorResponse {
    /// An error body holding exactly one error with the given parts.
    pub fn error(
        status: u16,
        code: String,
        title: String,
        detail: Option<String>,
        source: Option<APIErrorSource>,
    ) -> (r: Self)
        ensures
            r.errors@.len() == 1,
            r.errors@[0] == (APIError { status, code, title, detail, source }),
    {
        APIErrorResponse { errors: vec![APIError { status, code, title, detail, source }] }
    }

    /// Translation of a storage failure into the external error shape: one
    /// structured error whose status, stable code string, title and detail
    /// follow the taxonomy.  Store-level failures are 500-class except
    /// `NotFound`, which maps to 404; no source pointer applies.
    pub fn from_repository_error(error: RepositoryError) -> (r: Self)
        ensures
            r.errors@.len() == 1,
            r.errors@[0].status == db_error_status(error),
            r.errors@[0].code@ == db_error_code(error),
            r.errors@[0].title@ == db_error_title(error),
            match r.errors@[0].detail {
                Some(d) => db_error_detail(error) == Some(d@),
                None => db_error_detail(error) is None,
            },
            r.errors@[0].source is None,
    {
        match error {
            RepositoryError::ConnectionError(message) => Self::error(
                500,
                String::from_str("db.connection"),
                String::from_str("Database Connection"),
                Some(message),
                None,
            ),
            RepositoryError::DatabaseError(message) => Self::error(
                500,
                String::from_str("db.execution"),
                String::from_str("Database Execution"),
                Some(String::from_str("psql ").concat(message.as_str())),
                None,
            ),
            RepositoryError::ConversionError(message) => Self::error(
                500,
                String::from_str("db.data"),
                String::from_str("Database Data Error"),
                Some(message),
                None,
            ),
            RepositoryError::IOError(message) => Self::error(
                500,
                String::from_str("db.io"),
                String::from_str("Database IO Error"),
                Some(message),
                None,
            ),
            RepositoryError::UnknownError(message) => Self::error(
                500,
                String::from_str("db"),
                String::from_str("Database Unknown Error"),
                message,
                None,
            ),
            RepositoryError::NotFound => Self::error(
                404,
                String::from_str("db.not_found"),
                String::from_str("Not Found"),
                None,
                None,
            ),
        }
    }

    /// Translation of a handler error class into the external error shape.
    /// Request-side classes are 400 with a machine-readable code and, for
    /// parameter errors, a pointer to the offending parameter or field;
    /// storage failures go through the taxonomy translation.
    pub fn from_error_type(kind: APIErrorType) -> (r: Self)
        ensures
            r.errors@.len() == 1,
            kind matches APIErrorType::ParsingError { detail } ==> {
                &&& r.errors@[0].status == 400
                &&& r.errors@[0].code@ == "request.validation"@
                &&& r.errors@[0].title@ == "Invalid Request Parameters"@
                &&& r.errors@[0].detail == detail
                &&& r.errors@[0].source is None
            },
            kind matches APIErrorType::QueryParameterError { parameter, detail } ==> {
                &&& r.errors@[0].status == 400
                &&& r.errors@[0].code@ == "request.validation.query"@
                &&& r.errors@[0].title@ == "Invalid Query Parameter"@
                &&& r.errors@[0].detail == detail
                &&& r.errors@[0].source == Some(APIErrorSource::QueryParameter { parameter })
            },
            kind matches APIErrorType::BodyParameterError { pointer, detail } ==> {
                &&& r.errors@[0].status == 400
                &&& r.errors@[0].code@ == "request.validation.body"@
                &&& r.errors@[0].title@ == "Invalid Request"@
                &&& r.errors@[0].detail == detail
                &&& r.errors@[0].source == Some(APIErrorSource::Pointer { pointer })
            },
            kind matches APIErrorType::ValidationError { detail } ==> {
                &&& r.errors@[0].status == 400
                &&& r.errors@[0].code@ == "validation"@
                &&& r.errors@[0].title@ == "Validation Error"@
                &&& r.errors@[0].detail == detail
                &&& r.errors@[0].source is None
            },
            kind matches APIErrorType::RepositoryError { repository_error } ==> {
                &&& r.errors@[0].status == db_error_status(repository_error)
                &&& r.errors@[0].code@ == db_error_code(repository_error)
                &&& r.errors@[0].title@ == db_error_title(repository_error)
                &&& match r.errors@[0].detail {
                    Some(d) => db_error_detail(repository_error) == Some(d@),
                    None => db_error_detail(repository_error) is None,
                }
                &&& r.errors@[0].source is None
            },
    {
        match kind {
            APIErrorType::ParsingError { detail } => Self::error(
                400,
                String::from_str("request.validation"),
                String::from_str("Invalid Request Parameters"),
                detail,
                None,
            ),
            APIErrorType::QueryParameterError { parameter, detail } => Self::error(
                400,
                String::from_str("request.validation.query"),
                String::from_str("Invalid Query Parameter"),
                detail,
                Some(APIErrorSource::QueryParameter { parameter }),
            ),
            APIErrorType::BodyParameterError { pointer, detail } => Self::error(
                400,
                String::from_str("request.validation.body"),
                String::from_str("Invalid Request"),
                detail,
                Some(APIErrorSource::Pointer { pointer }),
            ),
            APIErrorType::ValidationError { detail } => Self::error(
                400,
                String::from_str("validation"),
                String::from_str("Validation Error"),
                detail,
                None,
            ),
            APIErrorType::RepositoryError { repository_error } => Self::from_repository_error(
                repository_error,
            ),
        }
    }

    /// The response status: that of the first error, or 500 when the body
    /// holds none.
    pub fn status_code(&self) -> (r: u16)
        ensures
            r == if self.errors@.len() == 0 {
                500u16
            } else {
                self.errors@[0].status
            },
    {
        if self.errors.len() == 0 {
            500
        } else {
            self.errors[0].status
        }
    }
}

} // verus!
