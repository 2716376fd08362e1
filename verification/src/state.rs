//! What every request handler works on: the store and the service's settings.

use vstd::prelude::*;

use crate::db::{Database, DbView};

verus! {

/// The state of the service.
pub struct AppState {
    pub db: Database,
    pub jwt_secret: String,
    pub github_client_id: String,
    pub github_client_secret: String,
    pub api_url: String,
    pub cors_origin: String,
}

/// What the state of the service holds, as mathematical values.
pub struct AppStateView {
    pub db: DbView,
    pub jwt_secret: Seq<char>,
    pub github_client_id: Seq<char>,
    pub github_client_secret: Seq<char>,
    pub api_url: Seq<char>,
    pub cors_origin: Seq<char>,
}

impl View for AppState {
    type V = AppStateView;

    open spec fn view(&self) -> AppStateView {
        AppStateView {
            db: self.db@,
            jwt_secret: self.jwt_secret@,
            github_client_id: self.github_client_id@,
            github_client_secret: self.github_client_secret@,
            api_url: self.api_url@,
            cors_origin: self.cors_origin@,
        }
    }
}

impl AppState {
    /// The state's invariant: that of the store.
    pub open spec fn wf(&self) -> bool {
        self.db.wf()
    }
}

/// What an optional text holds, as a mathematical value.
pub open spec fn opt_text(text: Option<&str>) -> Option<Seq<char>> {
    match text {
        Some(s) => Some(s@),
        None => None,
    }
}

/// What an optional string holds, as a mathematical value.
pub open spec fn opt_string(text: Option<String>) -> Option<Seq<char>> {
    match text {
        Some(s) => Some(s@),
        None => None,
    }
}

} // verus!
