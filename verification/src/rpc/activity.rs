//! The activity payload of a `SET_ACTIVITY` command.
use vstd::prelude::*;

use crate::rpc::{Assets, Button, Timestamps};

verus! {

/// What Discord shows as the user's current activity; absent parts are left
/// out of the payload.
#[derive(Debug)]
pub struct Activity {
    /// First line under the application name.
    pub details: Option<String>,
    /// Second line under the application name.
    pub state: Option<String>,
    /// Elapsed or remaining time.
    pub timestamps: Option<Timestamps>,
    /// Images.
    pub assets: Option<Assets>,
    /// Link buttons; absent rather than empty.
    pub buttons: Option<Vec<Button>>,
}

impl Clone for Activity {
    fn clone(&self) -> (res: Self)
        ensures
            res.details == self.details,
            res.state == self.state,
            res.timestamps == self.timestamps,
            res.assets == self.assets,
            self.buttons is None ==> res.buttons is None,
            self.buttons matches Some(b) ==> (res.buttons matches Some(c) && c@ == b@),
    {
        let buttons = match &self.buttons {
            Some(b) => {
                let c = b.clone();
                assert(c@ =~= b@);
                Some(c)
            },
            None => None,
        };
        Activity {
            details: self.details.clone(),
            state: self.state.clone(),
            timestamps: self.timestamps.clone(),
            assets: self.assets.clone(),
            buttons,
        }
    }
}

impl Default for Activity {
    fn default() -> (res: Self)
        ensures
            res.details is None,
            res.state is None,
            res.timestamps is None,
            res.assets is None,
            res.buttons is None,
    {
        Activity { details: None, state: None, timestamps: None, assets: None, buttons: None }
    }
}

} // verus!
