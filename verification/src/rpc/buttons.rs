//! Activity buttons.
use vstd::prelude::*;

verus! {

/// A link button shown under an activity.
#[derive(Debug)]
pub struct Button {
    /// Text on the button.
    pub label: String,
    /// Address the button opens.
    pub url: String,
}

impl Clone for Button {
    fn clone(&self) -> (res: Self)
        ensures
            res == *self,
    {
        Button { label: self.label.clone(), url: self.url.clone() }
    }
}

} // verus!
