//! What the user API answers when a request cannot be served: a status code
//! and a text for each way in which a handler can fail.

use vstd::prelude::*;
use vstd::string::*;
use crate::decimal::{decimal_i32, signed_decimal};
use crate::user_queries::QueryError;
use crate::validation::{label_errors, labelled, FieldIssue, FieldIssueView};

verus! {

/// The status code `400 Bad Request`.
pub const BAD_REQUEST: u16 = 400;

/// The status code `401 Unauthorized`.
pub const UNAUTHORIZED: u16 = 401;

/// The status code `404 Not Found`.
pub const NOT_FOUND: u16 = 404;

/// The status code `409 Conflict`.
pub const CONFLICT: u16 = 409;

/// The status code `422 Unprocessable Entity`.
pub const UNPROCESSABLE_ENTITY: u16 = 422;

/// The status code `500 Internal Server Error`.
pub const INTERNAL_SERVER_ERROR: u16 = 500;

/// An answer to a request that failed: the status code and the text of the
/// body.
#[derive(Clone, Debug, PartialEq, Eq)]
pub struct Reply {
    pub status: u16,
    pub body: String,
}

/// The mathematical content of a `Reply`.
pub struct ReplyView {
    pub status: u16,
    pub body: Seq<char>,
}

impl View for Reply {
    type V = ReplyView;

    open spec fn view(&self) -> ReplyView {
        ReplyView { status: self.status, body: self.body@ }
    }
}

/// Why a login failed.
#[derive(Clone, Debug, PartialEq, Eq)]
pub enum LoginFailure {
    /// No database connection could be had.
    NoConnection,
    /// No user has the email of the login.
    UnknownUser,
    /// The lookup of the user failed; `reason` is the database's account.
    Database { reason: String },
    /// The password is not the user's, or the stored hash cannot be read.
    WrongPassword,
    /// The access token could not be made.
    AccessToken { reason: String },
    /// The refresh token could not be made.
    RefreshToken { reason: String },
}

/// Why a registration failed.
#[derive(Clone, Debug, PartialEq, Eq)]
pub enum RegisterFailure {
    /// No database connection could be had.
    NoConnection,
    /// A user with the same unique value exists; `constraint` names the
    /// rule of the database that was broken, where the database tells.
    Conflict { constraint: Option<String> },
    /// The insert failed otherwise; `reason` is the database's account.
    Database { reason: String },
}

/// Why a listing or a lookup of users failed.
#[derive(Clone, Debug, PartialEq, Eq)]
pub enum UsersFailure {
    /// No database connection could be had; `reason` says why.
    NoConnection { reason: String },
    /// The query could not be built.
    Query(QueryError),
    /// A row is no JSON; `reason` is the parser's account.
    Json { reason: String },
    /// No user has the id.
    NotFound { user_id: i32 },
    /// The query failed; `reason` is the database's account.
    Database { reason: String },
}

/// Why a request was turned away before it reached its handler.
#[derive(Clone, Debug, PartialEq, Eq)]
pub enum RequestError {
    /// The request was read and found invalid.
    Validate { issues: Vec<FieldIssue> },
    /// The request could not be read; `reason` is the reader's account.
    Deserialize { reason: String },
    /// The JSON body could not be read; `reason` is the parser's account.
    Format { reason: String },
    /// Anything else, in the words of the error itself.
    Other { display: String },
}

/// The mathematical content of a `LoginFailure`.
pub enum LoginFailureView {
    NoConnection,
    UnknownUser,
    Database { reason: Seq<char> },
    WrongPassword,
    AccessToken { reason: Seq<char> },
    RefreshToken { reason: Seq<char> },
}

/// The mathematical content of a `RegisterFailure`.
pub enum RegisterFailureView {
    NoConnection,
    Conflict { constraint: Option<Seq<char>> },
    Database { reason: Seq<char> },
}

/// The mathematical content of a `UsersFailure`.
pub enum UsersFailureView {
    NoConnection { reason: Seq<char> },
    Query(QueryError),
    Json { reason: Seq<char> },
    NotFound { user_id: i32 },
    Database { reason: Seq<char> },
}

/// The mathematical content of a `RequestError`.
pub enum RequestErrorView {
    Validate { issues: Seq<FieldIssueView> },
    Deserialize { reason: Seq<char> },
    Format { reason: Seq<char> },
    Other { display: Seq<char> },
}

impl View for LoginFailure {
    type V = LoginFailureView;

    open spec fn view(&self) -> LoginFailureView {
        match self {
            LoginFailure::NoConnection => LoginFailureView::NoConnection,
            LoginFailure::UnknownUser => LoginFailureView::UnknownUser,
            LoginFailure::Database { reason } => LoginFailureView::Database { reason: reason@ },
            LoginFailure::WrongPassword => LoginFailureView::WrongPassword,
            LoginFailure::AccessToken { reason } => LoginFailureView::AccessToken {
                reason: reason@,
            },
            LoginFailure::RefreshToken { reason } => LoginFailureView::RefreshToken {
                reason: reason@,
            },
        }
    }
}

impl View for RegisterFailure {
    type V = RegisterFailureView;

    open spec fn view(&self) -> RegisterFailureView {
        match self {
            RegisterFailure::NoConnection => RegisterFailureView::NoConnection,
            RegisterFailure::Conflict { constraint } => RegisterFailureView::Conflict {
                constraint: constraint.deep_view(),
            },
            RegisterFailure::Database { reason } => RegisterFailureView::Database {
                reason: reason@,
            },
        }
    }
}

impl View for UsersFailure {
    type V = UsersFailureView;

    open spec fn view(&self) -> UsersFailureView {
        match self {
            UsersFailure::NoConnection { reason } => UsersFailureView::NoConnection {
                reason: reason@,
            },
            UsersFailure::Query(error) => UsersFailureView::Query(*error),
            UsersFailure::Json { reason } => UsersFailureView::Json { reason: reason@ },
            UsersFailure::NotFound { user_id } => UsersFailureView::NotFound {
                user_id: *user_id,
            },
            UsersFailure::Database { reason } => UsersFailureView::Database { reason: reason@ },
        }
    }
}

impl View for RequestError {
    type V = RequestErrorView;

    open spec fn view(&self) -> RequestErrorView {
        match self {
            RequestError::Validate { issues } => RequestErrorView::Validate {
                issues: issues.deep_view(),
            },
            RequestError::Deserialize { reason } => RequestErrorView::Deserialize {
                reason: reason@,
            },
            RequestError::Format { reason } => RequestErrorView::Format { reason: reason@ },
            RequestError::Other { display } => RequestErrorView::Other { display: display@ },
        }
    }
}

/// The answer to a failed login. A wrong password and an unknown email are
/// answered alike, so that the answer does not tell which emails have an
/// account.
pub open spec fn login_reply_of(failure: LoginFailureView) -> ReplyView {
    match failure {
        LoginFailureView::NoConnection => ReplyView {
            status: INTERNAL_SERVER_ERROR,
            body: "DB connection failed"@,
        },
        LoginFailureView::UnknownUser => ReplyView {
            status: UNAUTHORIZED,
            body: "Invalid email or password"@,
        },
        LoginFailureView::Database { reason } => ReplyView {
            status: INTERNAL_SERVER_ERROR,
            body: "DB error: "@ + reason,
        },
        LoginFailureView::WrongPassword => ReplyView {
            status: UNAUTHORIZED,
            body: "Invalid email or password"@,
        },
        LoginFailureView::AccessToken { reason } => ReplyView {
            status: INTERNAL_SERVER_ERROR,
            body: "Access token error: "@ + reason,
        },
        LoginFailureView::RefreshToken { reason } => ReplyView {
            status: INTERNAL_SERVER_ERROR,
            body: "Refresh token error: "@ + reason,
        },
    }
}

/// What a conflict is said to be about: the email or the phone number for
/// the two rules that are known by name, the name of any other rule, and
/// `one of the fields` where no rule is named.
pub open spec fn conflict_subject_of(constraint: Option<Seq<char>>) -> Seq<char> {
    match constraint {
        Some(name) => if name == "unique_email"@ {
            "email"@
        } else if name == "unique_phone"@ {
            "phone number"@
        } else {
            name
        },
        None => "one of the fields"@,
    }
}

/// The answer to a failed registration.
pub open spec fn register_reply_of(failure: RegisterFailureView) -> ReplyView {
    match failure {
        RegisterFailureView::NoConnection => ReplyView {
            status: INTERNAL_SERVER_ERROR,
            body: "Failed to get DB connection"@,
        },
        RegisterFailureView::Conflict { constraint } => ReplyView {
            status: CONFLICT,
            body: "User with "@ + conflict_subject_of(constraint) + " already exists"@,
        },
        RegisterFailureView::Database { reason } => ReplyView {
            status: INTERNAL_SERVER_ERROR,
            body: "DB Error: "@ + reason,
        },
    }
}

/// The answer to a failed listing of users.
pub open spec fn users_reply_of(failure: UsersFailureView) -> ReplyView {
    match failure {
        UsersFailureView::NoConnection { reason } => ReplyView {
            status: INTERNAL_SERVER_ERROR,
            body: "Failed to get DB connection: "@ + reason,
        },
        UsersFailureView::Query(error) => ReplyView {
            status: BAD_REQUEST,
            body: "No valid fields provided."@,
        },
        UsersFailureView::Json { reason } => ReplyView {
            status: INTERNAL_SERVER_ERROR,
            body: "JSON parse error: "@ + reason,
        },
        UsersFailureView::NotFound { user_id } => ReplyView {
            status: NOT_FOUND,
            body: "User not found with the provided id "@ + signed_decimal(user_id as int),
        },
        UsersFailureView::Database { reason } => ReplyView {
            status: INTERNAL_SERVER_ERROR,
            body: "Database error: "@ + reason,
        },
    }
}

/// The answer to a failed lookup of one user. It differs from that of a
/// listing in two texts.
pub open spec fn user_reply_of(failure: UsersFailureView) -> ReplyView {
    match failure {
        UsersFailureView::NoConnection { reason } => ReplyView {
            status: INTERNAL_SERVER_ERROR,
            body: "Failed to get DB connection with error: "@ + reason,
        },
        UsersFailureView::Json { reason } => ReplyView {
            status: INTERNAL_SERVER_ERROR,
            body: "Failed to parse JSON"@,
        },
        _ => users_reply_of(failure),
    }
}

/// The text that tells why a request was turned away; `name` says which
/// part of the request was read, such as `path` or `query`.
pub open spec fn request_error_message_of(name: Seq<char>, error: RequestErrorView) -> Seq<char> {
    match error {
        RequestErrorView::Validate { issues } => labelled(
            "Validation error in "@ + name,
            issues,
        ),
        RequestErrorView::Deserialize { reason } => "Deserialize error in "@ + name + ": "@
            + reason,
        RequestErrorView::Format { reason } => "Format error in "@ + name + ": "@ + reason,
        RequestErrorView::Other { display } => display,
    }
}

/// The status code for a request that was turned away: 422 where it was
/// read and found invalid, 400 where it could not be read.
pub open spec fn request_error_status_of(error: RequestErrorView) -> u16 {
    match error {
        RequestErrorView::Validate { issues } => UNPROCESSABLE_ENTITY,
        _ => BAD_REQUEST,
    }
}

/// A text and what follows it.
fn followed(text: &str, rest: &str) -> (both: String)
    ensures
        both@ == text@ + rest@,
{
    let mut both = String::from_str(text);
    both.append(rest);
    both
}

impl LoginFailure {
    /// The answer to this failure.
    pub fn reply(&self) -> (reply: Reply)
        ensures
            reply@ == login_reply_of(self@),
    {
        match self {
            LoginFailure::NoConnection => Reply {
                status: INTERNAL_SERVER_ERROR,
                body: String::from_str("DB connection failed"),
            },
            LoginFailure::UnknownUser => Reply {
                status: UNAUTHORIZED,
                body: String::from_str("Invalid email or password"),
            },
            LoginFailure::Database { reason } => Reply {
                status: INTERNAL_SERVER_ERROR,
                body: followed("DB error: ", reason.as_str()),
            },
            LoginFailure::WrongPassword => Reply {
                status: UNAUTHORIZED,
                body: String::from_str("Invalid email or password"),
            },
            LoginFailure::AccessToken { reason } => Reply {
                status: INTERNAL_SERVER_ERROR,
                body: followed("Access token error: ", reason.as_str()),
            },
            LoginFailure::RefreshToken { reason } => Reply {
                status: INTERNAL_SERVER_ERROR,
                body: followed("Refresh token error: ", reason.as_str()),
            },
        }
    }
}

/// Says what a conflict is about, given the name of the broken rule.
pub fn conflict_subject(constraint: &Option<String>) -> (subject: String)
    ensures
        subject@ == conflict_subject_of(constraint.deep_view()),
{
    match constraint {
        Some(name) => {
            let email = String::from_str("unique_email");
            let phone = String::from_str("unique_phone");
            if *name == email {
                String::from_str("email")
            } else if *name == phone {
                String::from_str("phone number")
            } else {
                name.clone()
            }
        },
        None => String::from_str("one of the fields"),
    }
}

impl RegisterFailure {
    /// The answer to this failure.
    pub fn reply(&self) -> (reply: Reply)
        ensures
            reply@ == register_reply_of(self@),
    {
        match self {
            RegisterFailure::NoConnection => Reply {
                status: INTERNAL_SERVER_ERROR,
                body: String::from_str("Failed to get DB connection"),
            },
            RegisterFailure::Conflict { constraint } => {
                let subject = conflict_subject(constraint);
                let mut body = followed("User with ", subject.as_str());
                body.append(" already exists");
                Reply { status: CONFLICT, body }
            },
            RegisterFailure::Database { reason } => Reply {
                status: INTERNAL_SERVER_ERROR,
                body: followed("DB Error: ", reason.as_str()),
            },
        }
    }
}

impl UsersFailure {
    /// The answer to this failure of a listing.
    pub fn listing_reply(&self) -> (reply: Reply)
        ensures
            reply@ == users_reply_of(self@),
    {
        match self {
            UsersFailure::NoConnection { reason } => Reply {
                status: INTERNAL_SERVER_ERROR,
                body: followed("Failed to get DB connection: ", reason.as_str()),
            },
            UsersFailure::Query(error) => Reply {
                status: BAD_REQUEST,
                body: String::from_str(error.message()),
            },
            UsersFailure::Json { reason } => Reply {
                status: INTERNAL_SERVER_ERROR,
                body: followed("JSON parse error: ", reason.as_str()),
            },
            UsersFailure::NotFound { user_id } => {
                let id = decimal_i32(*user_id);
                Reply {
                    status: NOT_FOUND,
                    body: followed("User not found with the provided id ", id.as_str()),
                }
            },
            UsersFailure::Database { reason } => Reply {
                status: INTERNAL_SERVER_ERROR,
                body: followed("Database error: ", reason.as_str()),
            },
        }
    }

    /// The answer to this failure of a lookup of one user.
    pub fn lookup_reply(&self) -> (reply: Reply)
        ensures
            reply@ == user_reply_of(self@),
    {
        match self {
            UsersFailure::NoConnection { reason } => Reply {
                status: INTERNAL_SERVER_ERROR,
                body: followed("Failed to get DB connection with error: ", reason.as_str()),
            },
            UsersFailure::Json { reason } => Reply {
                status: INTERNAL_SERVER_ERROR,
                body: String::from_str("Failed to parse JSON"),
            },
            _ => self.listing_reply(),
        }
    }
}

impl RequestError {
    /// The text that tells why the request was turned away.
    pub fn message(&self, name: &str) -> (text: String)
        ensures
            text@ == request_error_message_of(name@, self@),
    {
        match self {
            RequestError::Validate { issues } => {
                let label = followed("Validation error in ", name);
                label_errors(label.as_str(), issues)
            },
            RequestError::Deserialize { reason } => {
                let mut text = followed("Deserialize error in ", name);
                text.append(": ");
                text.append(reason.as_str());
                text
            },
            RequestError::Format { reason } => {
                let mut text = followed("Format error in ", name);
                text.append(": ");
                text.append(reason.as_str());
                text
            },
            RequestError::Other { display } => display.clone(),
        }
    }

    /// The status code for the request.
    pub fn status(&self) -> (status: u16)
        ensures
            status == request_error_status_of(self@),
    {
        match self {
            RequestError::Validate { issues } => UNPROCESSABLE_ENTITY,
            _ => BAD_REQUEST,
        }
    }
}

} // verus!
