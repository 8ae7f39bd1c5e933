//! The record of recently used applications, kept as a JSON list of names.
use vstd::prelude::*;

use serde_json::Error as JsonError;

use crate::error::Error;
use crate::models::App;
use crate::text::{join_path, path_join, views};

verus! {

/// The cache directory under the configuration directory.
#[derive(Debug)]
pub struct CacheStore {
    path: String,
}

/// The names a JSON text holds when it is a list of strings, as
/// `serde_json::from_str::<Vec<String>>` reads it.
pub uninterp spec fn json_string_list(text: Seq<char>) -> Option<Seq<Seq<char>>>;

/// The JSON text `serde_json::to_string` writes for a list of strings.
pub uninterp spec fn json_string_list_text(items: Seq<Seq<char>>) -> Seq<char>;

/// Calls `serde_json::from_str::<Vec<String>>`. Trusted: it succeeds exactly
/// when `json_string_list` of the text is some list, and then returns that
/// list.
#[verifier::external_body]
fn parse_string_list(text: &str) -> (res: Result<Vec<String>, JsonError>)
    ensures
        match res {
            Ok(v) => json_string_list(text@) == Some(views(v@)),
            Err(_) => json_string_list(text@) is None,
        },
{
    serde_json::from_str::<Vec<String>>(text)
}

/// Calls `serde_json::to_string` on a list of strings. Trusted: it succeeds
/// (it fails only for a failing `Serialize` impl or a map with non-string
/// keys, and a list of strings has neither), the text is
/// `json_string_list_text` of the list, and reading that text back with
/// `serde_json::from_str::<Vec<String>>` gives the same list.
#[verifier::external_body]
fn string_list_to_json(items: &Vec<String>) -> (res: Result<String, JsonError>)
    ensures
        res is Ok,
        res matches Ok(s) ==> s@ == json_string_list_text(views(items@)),
        res matches Ok(s) ==> json_string_list(s@) == Some(views(items@)),
{
    serde_json::to_string(items)
}

/// The recorded names after recording `name`: unchanged when it is already
/// there, else with `name` appended.
pub open spec fn merged(names: Seq<Seq<char>>, name: Seq<char>) -> Seq<Seq<char>> {
    if names.contains(name) {
        names
    } else {
        names.push(name)
    }
}

/// The names recorded before: none without a file, and none when its text is
/// not a JSON list of strings.
pub open spec fn recorded_names(existing: Option<Seq<char>>) -> Seq<Seq<char>> {
    match existing {
        None => Seq::empty(),
        Some(text) => match json_string_list(text) {
            Some(names) => names,
            None => Seq::empty(),
        },
    }
}

/// The contents of an optional string slice.
pub open spec fn opt_str_view(o: Option<&str>) -> Option<Seq<char>> {
    match o {
        Some(s) => Some(s@),
        None => None,
    }
}

impl CacheStore {
    /// The cache directory.
    pub closed spec fn dir(&self) -> Seq<char> {
        self.path@
    }

    /// The store under `base_dir`: its directory is `base_dir/cache`.
    pub fn new(base_dir: &str) -> (res: Self)
        ensures
            res.dir() == path_join(base_dir@, "cache"@),
    {
        CacheStore { path: join_path(base_dir, "cache") }
    }

    /// The cache directory.
    pub fn path(&self) -> (res: &str)
        ensures
            res@ == self.dir(),
    {
        self.path.as_str()
    }

    /// The file holding the list of recently used applications.
    pub fn recent_path(&self) -> (res: String)
        ensures
            res@ == path_join(self.dir(), "recent.json"@),
    {
        join_path(self.path.as_str(), "recent.json")
    }

    /// Adds the application's name to the recorded names unless it is there.
    pub fn merge_recent(entries: Vec<String>, app: &App) -> (res: Vec<String>)
        ensures
            views(res@) == merged(views(entries@), app.name@),
    {
        let ghost original = entries@;
        let mut list = entries;
        let mut i: usize = 0;
        while i < list.len()
            invariant
                list@ == original,
                entries@ == original,
                i <= list@.len(),
                forall|j: int| 0 <= j < i ==> (#[trigger] list@[j])@ != app.name@,
            decreases list@.len() - i,
        {
            if list[i] == app.name {
                assert(views(original)[i as int] == app.name@);
                return list;
            }
            i = i + 1;
        }
        let ghost before = list@;
        assert(!views(before).contains(app.name@)) by {
            if views(before).contains(app.name@) {
                let j = choose|j: int| 0 <= j < views(before).len() && views(before)[j] == app.name@;
                assert(before[j]@ == app.name@);
            }
        }
        list.push(app.name.clone());
        assert(views(list@) =~= views(before).push(app.name@));
        list
    }

    /// The new text of the recent-applications file after using `app`, given
    /// the file's current text if it exists. A text that is not a JSON list of
    /// strings counts as an empty list. Recording always succeeds, and the new
    /// text reads back as the merged list.
    pub fn record(&self, app: &App, existing: Option<&str>) -> (res: Result<String, Error>)
        ensures
            res matches Ok(text) && text@ == json_string_list_text(
                merged(recorded_names(opt_str_view(existing)), app.name@),
            ),
            res matches Ok(text) && json_string_list(text@) == Some(
                merged(recorded_names(opt_str_view(existing)), app.name@),
            ),
    {
        let before: Vec<String> = match existing {
            None => Vec::new(),
            Some(text) => match parse_string_list(text) {
                Ok(names) => names,
                Err(_) => Vec::new(),
            },
        };
        assert(views(before@) == recorded_names(opt_str_view(existing))) by {
            if existing is None || json_string_list(existing->0@) is None {
                assert(views(before@) =~= Seq::<Seq<char>>::empty());
            }
        }
        let after = CacheStore::merge_recent(before, app);
        match string_list_to_json(&after) {
            Ok(text) => Ok(text),
            Err(e) => Err(Error::Json(e)),
        }
    }
}

/// Recording an application again on the text a first recording wrote gives
/// that same text back.
pub proof fn law_record_twice_same_text(existing: Option<Seq<char>>, first: Seq<char>, name: Seq<char>)
    requires
        first == json_string_list_text(merged(recorded_names(existing), name)),
        json_string_list(first) == Some(merged(recorded_names(existing), name)),
    ensures
        json_string_list_text(merged(recorded_names(Some(first)), name)) == first,
{
    law_record_idempotent(recorded_names(existing), name);
}

/// Recording the same application twice leaves the list as recording it once.
pub proof fn law_record_idempotent(names: Seq<Seq<char>>, name: Seq<char>)
    ensures
        merged(merged(names, name), name) == merged(names, name),
{
    if !names.contains(name) {
        assert(names.push(name)[names.len() as int] == name);
    }
}

/// After recording, the name is in the list, every name recorded before is
/// still there in its place, and a list without repeats stays without repeats.
pub proof fn law_record_keeps_names(names: Seq<Seq<char>>, name: Seq<char>)
    ensures
        merged(names, name).contains(name),
        merged(names, name).take(names.len() as int) == names,
        names.no_duplicates() ==> merged(names, name).no_duplicates(),
{
    if !names.contains(name) {
        assert(names.push(name)[names.len() as int] == name);
        assert(names.push(name).take(names.len() as int) =~= names);
    } else {
        assert(names.take(names.len() as int) =~= names);
    }
}

} // verus!
