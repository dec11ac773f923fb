//! The decisions of the HTTP endpoints.

use vstd::prelude::*;
use crate::config::Config;
use crate::error::AppError;
use crate::models::{IdentifyRequest, IdentifyResponse, TaskStatus};

verus! {

/// An identify request is accepted unless its URL is empty, which is
/// answered with "URL vazia" as an invalid URL.
pub fn check_identify_request(req: &IdentifyRequest) -> (r: Result<(), AppError>)
    ensures
        req.url@.len() > 0 ==> r is Ok,
        req.url@.len() == 0 ==> (r matches Err(AppError::InvalidUrl(m)) && m@ == "URL vazia"@),
{
    if req.url.as_str().is_empty() {
        Err(AppError::InvalidUrl(String::from_str("URL vazia")))
    } else {
        Ok(())
    }
}

/// The answer to an accepted identify request: the new task, queued.
pub fn identify_response(task_id: String) -> (r: IdentifyResponse)
    ensures
        r.task_id == task_id,
        r.status == TaskStatus::Queued,
{
    IdentifyResponse { task_id, status: TaskStatus::Queued }
}

/// The answer to a result query: the stored record, or "task not found"
/// naming the task.
pub fn task_or_not_found<T>(task_id: String, stored: Option<T>) -> (r: Result<T, AppError>)
    ensures
        stored matches Some(t) ==> r == Ok::<T, AppError>(t),
        stored is None ==> r == Err::<T, AppError>(AppError::TaskNotFound(task_id)),
{
    match stored {
        Some(t) => Ok(t),
        None => Err(AppError::TaskNotFound(task_id)),
    }
}

/// Where the uploaded cookies are kept: the configured cookies file, or
/// `./data/cookies.txt`.
pub fn cookies_file(config: &Config) -> (p: String)
    ensures
        p@ == match config.ytdlp_cookies_file {
            Some(f) => f@,
            None => "./data/cookies.txt"@,
        },
{
    match &config.ytdlp_cookies_file {
        Some(f) => f.clone(),
        None => String::from_str("./data/cookies.txt"),
    }
}

} // verus!
