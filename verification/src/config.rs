//! The persisted configuration.
use vstd::prelude::*;

use crate::text::opt_view;

verus! {

/// What the tool remembers between runs.
#[derive(Debug)]
pub struct PretendConfig {
    /// Name of the application most recently started.
    pub default_application: Option<String>,
    /// Discord application id of the activity most recently started and not
    /// yet stopped.
    pub last_application_id: Option<String>,
}

/// The contents of a [`PretendConfig`].
pub struct ConfigView {
    pub default_application: Option<Seq<char>>,
    pub last_application_id: Option<Seq<char>>,
}

impl View for PretendConfig {
    type V = ConfigView;

    open spec fn view(&self) -> ConfigView {
        ConfigView {
            default_application: opt_view(self.default_application),
            last_application_id: opt_view(self.last_application_id),
        }
    }
}

impl Clone for PretendConfig {
    fn clone(&self) -> (res: Self)
        ensures
            res == *self,
    {
        PretendConfig {
            default_application: self.default_application.clone(),
            last_application_id: self.last_application_id.clone(),
        }
    }
}

impl Default for PretendConfig {
    fn default() -> (res: Self)
        ensures
            res.default_application is None,
            res.last_application_id is None,
    {
        PretendConfig { default_application: None, last_application_id: None }
    }
}

} // verus!
