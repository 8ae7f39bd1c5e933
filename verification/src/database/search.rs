//! Scored search hits.
use vstd::prelude::*;

use crate::models::App;

verus! {

/// An application together with how well it matched a query.
#[derive(Debug)]
pub struct SearchResult {
    /// The matching application.
    pub app: App,
    /// Its score; higher is better.
    pub score: i32,
}

impl SearchResult {
    /// Pairs an application with its score.
    pub fn new(app: App, score: i32) -> (res: Self)
        ensures
            res.app == app,
            res.score == score,
    {
        SearchResult { app, score }
    }
}

impl Clone for SearchResult {
    fn clone(&self) -> (res: Self)
        ensures
            res.app@ == self.app@,
            res.score == self.score,
    {
        SearchResult { app: self.app.clone(), score: self.score }
    }
}

} // verus!
