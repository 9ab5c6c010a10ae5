//! Errors of a sync pass and the kinds they are counted under.
use vstd::prelude::*;

verus! {

/// The kind under which a failed package sync is counted.
#[derive(Debug, Clone, Copy, PartialEq, Eq, Structural)]
pub enum SyncErrorKind {
    Auth,
    RateLimit,
    Network,
    NotFound,
    Other,
}

/// An error of the sync engine. Transport and parser failures carry their message as text.
#[derive(Debug, Clone)]
pub enum AiDocsError {
    Io(String),
    ConfigParse(String),
    InvalidConfig(String),
    ConfigNotFound(String),
    Http(String),
    Fetch { url: String, message: String },
    GitHubAuth { url: String, status: u16 },
    GitHubRateLimit { url: String, status: u16 },
    HttpStatus { url: String, status: u16 },
    CargoLockParse(String),
    CargoLockNotFound,
    GitHubFileNotFound { repo: String, path: String, tried_tags: Vec<String> },
    OptionalFileNotFound(String),
    Other(String),
}

/// The kind an error is counted under in the sync summary.
pub open spec fn kind_of(e: AiDocsError) -> SyncErrorKind {
    match e {
        AiDocsError::GitHubAuth { .. } => SyncErrorKind::Auth,
        AiDocsError::GitHubRateLimit { .. } => SyncErrorKind::RateLimit,
        AiDocsError::Http(_) => SyncErrorKind::Network,
        AiDocsError::Fetch { .. } => SyncErrorKind::Network,
        AiDocsError::GitHubFileNotFound { .. } => SyncErrorKind::NotFound,
        AiDocsError::OptionalFileNotFound(_) => SyncErrorKind::NotFound,
        AiDocsError::HttpStatus { status, .. } => if status == 404 {
            SyncErrorKind::NotFound
        } else if status >= 500 {
            SyncErrorKind::Network
        } else {
            SyncErrorKind::Other
        },
        _ => SyncErrorKind::Other,
    }
}

impl AiDocsError {
    /// Classifies the error for the per-kind counters of a sync pass.
    pub fn sync_kind(&self) -> (r: SyncErrorKind)
        ensures
            r == kind_of(*self),
    {
        match self {
            AiDocsError::GitHubAuth { .. } => SyncErrorKind::Auth,
            AiDocsError::GitHubRateLimit { .. } => SyncErrorKind::RateLimit,
            AiDocsError::Http(_) => SyncErrorKind::Network,
            AiDocsError::Fetch { .. } => SyncErrorKind::Network,
            AiDocsError::GitHubFileNotFound { .. } => SyncErrorKind::NotFound,
            AiDocsError::OptionalFileNotFound(_) => SyncErrorKind::NotFound,
            AiDocsError::HttpStatus { status, .. } => {
                if *status == 404 {
                    SyncErrorKind::NotFound
                } else if *status >= 500 {
                    SyncErrorKind::Network
                } else {
                    SyncErrorKind::Other
                }
            },
            _ => SyncErrorKind::Other,
        }
    }
}

/// Whether a failure of the documentation-page path lets the sync fall back to the
/// source-hosting path: HTTP 404, 429 and 5xx, and any transport failure.
pub open spec fn fallback_eligible(e: AiDocsError) -> bool {
    match e {
        AiDocsError::HttpStatus { status, .. } => status == 404 || status == 429 || (500 <= status
            < 600),
        AiDocsError::Http(_) => true,
        AiDocsError::Fetch { .. } => true,
        _ => false,
    }
}

/// Whether the sync should retry a failed documentation-page fetch through the
/// source-hosting fallback.
pub fn is_docsrs_fallback_eligible(error: &AiDocsError) -> (r: bool)
    ensures
        r == fallback_eligible(*error),
{
    match error {
        AiDocsError::HttpStatus { status, .. } => *status == 404 || *status == 429 || (*status
            >= 500 && *status < 600),
        AiDocsError::Http(_) => true,
        AiDocsError::Fetch { .. } => true,
        _ => false,
    }
}

} // verus!
