//! The users of the service and the sources gathered for a report.
use vstd::prelude::*;
use crate::llm::GenerationResult;
use crate::report::{ReportModel, ReportSize};

verus! {

#[verifier::external_type_specification]
#[verifier::external_body]
pub struct ExPathBuf(std::path::PathBuf);

/// `PathBuf::clone` gives a path equal to the one cloned.
pub assume_specification[ <std::path::PathBuf as Clone>::clone ](p: &std::path::PathBuf) -> (r: std::path::PathBuf)
    ensures
        r == *p,
;

/// A user account.
#[derive(Debug, Clone)]
pub struct User {
    pub id: String,
    pub email: String,
    pub password: String,
}

/// What the web front end is told about a user: never the password.
#[derive(Debug, Clone)]
pub struct FrontendUser {
    pub id: String,
    pub email: String,
}

/// A page fetched for a report, before it is classified.
#[derive(Debug, Clone)]
pub struct PreClassificationSource {
    pub url: String,
    pub content: String,
}

/// A file kept on disk for later, under the identifier it was stored with.
#[derive(Debug, Clone)]
pub struct PersistedBlob {
    pub id: String,
    pub path: std::path::PathBuf,
}

/// A file to be kept on disk.
#[derive(Debug, Clone)]
pub struct CreatePersistedBlob {
    pub path: std::path::PathBuf,
}

impl FrontendUser {
    /// The front end's view of a user.
    pub fn of_user(user: User) -> (f: FrontendUser)
        ensures
            f.id@ == user.id@,
            f.email@ == user.email@,
    {
        FrontendUser { id: user.id, email: user.email }
    }
}

/// What the validation of a request concluded: whether a report can be
/// written for it, and why not.
#[derive(Debug, Clone)]
pub struct ValidationOutput {
    pub valid: bool,
    pub error: Option<String>,
}

/// What the web front end is shown of a report. `S` is the type of the
/// report's status: the job of the report workflow it has reached.
#[derive(Debug, Clone)]
pub struct FrontendReport<S> {
    pub user_input: String,
    pub status: S,
    pub size: ReportSize,
    pub model: ReportModel,
    pub error: Option<String>,
    pub valid: Option<bool>,
    pub title: Option<String>,
}

/// A change of a report's status, as it is published.
#[derive(Debug, Clone)]
pub struct ReportStatusEvent<S> {
    pub report_id: String,
    pub status: S,
}

/// The message shown while a request has not been validated.
pub open spec fn not_validated_message() -> Seq<char> {
    "Validation has not been performed yet."@
}

/// The views of an optional text.
pub open spec fn opt_text(o: Option<String>) -> Option<Seq<char>> {
    match o {
        Some(s) => Some(s@),
        None => None,
    }
}

impl<S> FrontendReport<S> {
    /// The front end's view of a report's state: its request, status, size,
    /// model and title, and the outcome of its validation; a report not yet
    /// validated is shown as invalid, with a message saying so.
    pub fn from_state(
        user_input: String,
        status: S,
        size: ReportSize,
        model: ReportModel,
        title: Option<String>,
        validation: Option<ValidationOutput>,
    ) -> (r: Self)
        ensures
            r.user_input@ == user_input@,
            r.status == status,
            r.size == size,
            r.model == model,
            opt_text(r.title) == opt_text(title),
            validation matches Some(v) ==> r.valid == Some(v.valid) && opt_text(r.error) == opt_text(
                v.error,
            ),
            validation is None ==> r.valid == Some(false) && opt_text(r.error) == Some(
                not_validated_message(),
            ),
    {
        let (valid, error) = match validation {
            Some(v) => (v.valid, v.error),
            None => (false, Some(String::from_str("Validation has not been performed yet."))),
        };
        FrontendReport { user_input, status, size, model, title, valid: Some(valid), error }
    }

    /// The front end's view of a report sent while it is followed live: the
    /// report must have been validated, and no error is shown.
    pub fn live_update(
        user_input: String,
        status: S,
        size: ReportSize,
        model: ReportModel,
        title: Option<String>,
        validation: ValidationOutput,
    ) -> (r: Self)
        ensures
            r.user_input@ == user_input@,
            r.status == status,
            r.size == size,
            r.model == model,
            opt_text(r.title) == opt_text(title),
            r.valid == Some(validation.valid),
            r.error is None,
    {
        FrontendReport {
            user_input,
            status,
            size,
            model,
            title,
            valid: Some(validation.valid),
            error: None,
        }
    }
}

impl<S> ReportStatusEvent<S> {
    /// The event that report `report_id` reached `status`.
    pub fn new(report_id: String, status: S) -> (e: Self)
        ensures
            e.report_id@ == report_id@,
            e.status == status,
    {
        ReportStatusEvent { report_id, status }
    }
}

/// A report as it is first recorded: the request, its status, size and
/// model, when it was made and last changed (seconds since the Unix epoch),
/// and the generations made for it. `S` is the type of the status.
#[derive(Debug, Clone)]
pub struct ReportCreation<S> {
    pub user_input: String,
    pub status: S,
    pub size: ReportSize,
    pub model: ReportModel,
    pub created_at: i64,
    pub updated_at: i64,
    pub generation_results: Vec<GenerationResult>,
}

impl<S> ReportCreation<S> {
    /// A new report for a request, in the `pending` status, made and last
    /// changed now, with no generations yet.
    pub fn new(user_input: String, size: ReportSize, model: ReportModel, pending: S) -> (r: Self)
        ensures
            r.user_input@ == user_input@,
            r.status == pending,
            r.size == size,
            r.model == model,
            r.created_at == r.updated_at,
            r.generation_results@.len() == 0,
    {
        let now = crate::jwt::utc_now_timestamp();
        ReportCreation {
            user_input,
            status: pending,
            size,
            model,
            created_at: now,
            updated_at: now,
            generation_results: Vec::new(),
        }
    }
}

} // verus!
