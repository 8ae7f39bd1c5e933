//! Applications of the catalogue.
use vstd::prelude::*;

use crate::text::{contains, join, join_strings, lower_chars, lowercase, seq_contains, views};

verus! {

/// A Discord application the user can appear to be running.
#[derive(Debug, PartialEq, Eq)]
pub struct App {
    /// Display name, such as `Minecraft`.
    pub name: String,
    /// Discord application id.
    pub application_id: String,
    /// Other names the application is found by.
    pub aliases: Vec<String>,
}

/// The contents of an [`App`].
pub struct AppView {
    pub name: Seq<char>,
    pub application_id: Seq<char>,
    pub aliases: Seq<Seq<char>>,
}

impl View for App {
    type V = AppView;

    open spec fn view(&self) -> AppView {
        AppView {
            name: self.name@,
            application_id: self.application_id@,
            aliases: views(self.aliases@),
        }
    }
}

/// The contents of a sequence of applications.
pub open spec fn app_views(apps: Seq<App>) -> Seq<AppView> {
    apps.map_values(|a: App| a@)
}

impl Clone for App {
    fn clone(&self) -> (res: Self)
        ensures
            res@ == self@,
    {
        let aliases = self.aliases.clone();
        assert(aliases@ =~= self.aliases@);
        App { name: self.name.clone(), application_id: self.application_id.clone(), aliases }
    }
}

/// The text an application is searched in: its name, a space, and its aliases
/// separated by spaces.
pub open spec fn app_text(app: AppView) -> Seq<char> {
    app.name + seq![' '] + join(app.aliases, seq![' '])
}

/// The application's text contains the query, both lowercased.
pub open spec fn spec_contains_query(app: AppView, query: Seq<char>) -> bool {
    seq_contains(lowercase(app_text(app)), lowercase(query))
}

impl App {
    /// Whether the lowercased name-and-aliases text contains the lowercased
    /// query.
    pub fn contains_query(&self, query: &str) -> (b: bool)
        ensures
            b == spec_contains_query(self@, query@),
    {
        proof {
            reveal_strlit(" ");
        }
        assert(" "@ =~= seq![' ']);
        let mut value = self.name.clone();
        value.append(" ");
        let aliases = join_strings(self.aliases.as_slice(), " ");
        value.append(aliases.as_str());
        assert(value@ =~= app_text(self@));
        let hay = lower_chars(value.as_str());
        let needle = lower_chars(query);
        contains(hay.as_slice(), needle.as_slice())
    }
}

} // verus!
