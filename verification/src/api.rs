//! The remote score service seen from the session core: the error taxonomy,
//! the enabled/disabled capability decided once at startup, and the
//! fallback decisions the sync worker applies to whatever the network
//! returned. The network calls themselves live outside the library; they
//! hand their outcome in as a `Result`.

use vstd::prelude::*;

use crate::highscores::{
    best_after, cap_entries, insert_sorted, merged_scores, HighScore, Leaderboard,
};

verus! {

/// Everything a remote call can fail with. All of these are non-fatal: the
/// session degrades to local data.
pub enum ApiError {
    /// The request never completed (connection, timeout, ...).
    NetworkError(String),
    /// The server answered with a non-success status code.
    ServerError(u16),
    /// The response arrived but could not be decoded.
    ParseError(String),
    /// The client was switched off for this process.
    Disabled,
    /// No credential was configured at startup.
    MissingApiKey,
}

impl ApiError {
    /// A human-readable description of the failure.
    pub fn message(&self) -> (r: String)
        ensures
            r@ == (match self {
                ApiError::NetworkError(m) => "Network error: "@ + m@,
                ApiError::ServerError(_) => "Server error"@,
                ApiError::ParseError(m) => "Parse error: "@ + m@,
                ApiError::Disabled => "API disabled"@,
                ApiError::MissingApiKey => "Missing API key: set FLUREE_API_KEY environment variable"@,
            }),
    {
        match self {
            ApiError::NetworkError(m) => String::from_str("Network error: ").concat(m.as_str()),
            ApiError::ServerError(_) => String::from_str("Server error"),
            ApiError::ParseError(m) => String::from_str("Parse error: ").concat(m.as_str()),
            ApiError::Disabled => String::from_str("API disabled"),
            ApiError::MissingApiKey => String::from_str(
                "Missing API key: set FLUREE_API_KEY environment variable",
            ),
        }
    }
}

/// The capability handed to the sync component: whether remote calls may be
/// attempted at all. Decided once at startup from the credential search and
/// never re-enabled within a process.
#[derive(Clone, Copy)]
pub struct ApiClient {
    pub enabled: bool,
}

impl ApiClient {
    /// A client that will attempt remote calls exactly when a credential
    /// was found at startup.
    pub fn new(credential_available: bool) -> (r: Self)
        ensures
            r.enabled == credential_available,
    {
        Self { enabled: credential_available }
    }

    /// Switches the client off for the rest of the process.
    pub fn disable(&mut self)
        ensures
            !final(self).enabled,
    {
        self.enabled = false;
    }

    /// What every remote call asks first: `Ok` exactly when the
    /// client is enabled, `Err(Disabled)` otherwise, so a disabled client
    /// reports every call as disabled without attempting any I/O.
    pub fn check_enabled(&self) -> (r: Result<(), ApiError>)
        ensures
            r is Ok <==> self.enabled,
            !self.enabled ==> r == Result::<(), ApiError>::Err(ApiError::Disabled),
    {
        if self.enabled {
            Ok(())
        } else {
            Err(ApiError::Disabled)
        }
    }
}

/// The fetch-and-merge decision: a successful fetch is merged into the
/// local table and reported as such; any failure leaves the table exactly
/// as it was. The operation never fails visibly — it degrades to a no-op.
pub fn load_leaderboard_with_fallback(
    local_leaderboard: &mut Leaderboard,
    fetch_result: Result<Vec<HighScore>, ApiError>,
) -> (loaded: bool)
    ensures
        (match fetch_result {
            Ok(remote) => {
                &&& loaded
                &&& final(local_leaderboard).scores@ == merged_scores(
                    old(local_leaderboard).scores@,
                    remote@,
                )
                &&& final(local_leaderboard).local_best == old(local_leaderboard).local_best
                &&& final(local_leaderboard).wf()
            },
            Err(_) => {
                &&& !loaded
                &&& *final(local_leaderboard) == *old(local_leaderboard)
            },
        }),
{
    match fetch_result {
        Ok(remote_scores) => {
            local_leaderboard.merge_remote_scores(remote_scores);
            true
        },
        Err(_) => false,
    }
}

/// The submission decision: the record always enters the local table first,
/// whatever the remote outcome was; the return value only reports whether
/// the remote accepted it, in which case the caller reconciles with a fresh
/// fetch afterwards.
pub fn submit_score_with_fallback(
    local_leaderboard: &mut Leaderboard,
    high_score: &HighScore,
    submit_result: &Result<(), ApiError>,
) -> (submitted: bool)
    requires
        old(local_leaderboard).wf(),
    ensures
        submitted == (submit_result is Ok),
        final(local_leaderboard).scores@ == cap_entries(
            insert_sorted(old(local_leaderboard).scores@, *high_score),
        ),
        final(local_leaderboard).local_best == best_after(
            old(local_leaderboard).local_best,
            *high_score,
        ),
        final(local_leaderboard).wf(),
{
    local_leaderboard.add_score(high_score.clone());
    submit_result.is_ok()
}

} // verus!
