//! The presence a user publishes for an application.
use vstd::prelude::*;

use crate::rpc::{Activity, Assets, Button, Timestamps};

verus! {

/// A rich presence for one Discord application.
#[derive(Debug)]
pub struct Presence {
    /// Discord application id the presence is published for.
    pub application_id: String,
    /// First line under the application name.
    pub details: Option<String>,
    /// Second line under the application name.
    pub state: Option<String>,
    /// Elapsed or remaining time.
    pub timestamps: Option<Timestamps>,
    /// Images.
    pub assets: Option<Assets>,
    /// Link buttons.
    pub buttons: Vec<Button>,
}

impl Clone for Presence {
    fn clone(&self) -> (res: Self)
        ensures
            res.application_id == self.application_id,
            res.details == self.details,
            res.state == self.state,
            res.timestamps == self.timestamps,
            res.assets == self.assets,
            res.buttons@ == self.buttons@,
    {
        let buttons = self.buttons.clone();
        assert(buttons@ =~= self.buttons@);
        Presence {
            application_id: self.application_id.clone(),
            details: self.details.clone(),
            state: self.state.clone(),
            timestamps: self.timestamps.clone(),
            assets: self.assets.clone(),
            buttons,
        }
    }
}

impl Presence {
    /// A presence with the given text and no timestamps, assets or buttons.
    pub fn new(application_id: String, details: Option<String>, state: Option<String>) -> (res:
        Self)
        ensures
            res.application_id == application_id,
            res.details == details,
            res.state == state,
            res.timestamps is None,
            res.assets is None,
            res.buttons@.len() == 0,
    {
        Presence {
            application_id,
            details,
            state,
            timestamps: None,
            assets: None,
            buttons: Vec::new(),
        }
    }

    /// The activity to publish: the same text, timestamps and assets, and the
    /// buttons only when there are any.
    pub fn to_activity(&self) -> (res: Activity)
        ensures
            res.details == self.details,
            res.state == self.state,
            res.timestamps == self.timestamps,
            res.assets == self.assets,
            self.buttons@.len() == 0 ==> res.buttons is None,
            self.buttons@.len() > 0 ==> (res.buttons matches Some(b) && b@ == self.buttons@),
    {
        let buttons = if self.buttons.len() == 0 {
            None
        } else {
            let b = self.buttons.clone();
            assert(b@ =~= self.buttons@);
            Some(b)
        };
        Activity {
            details: self.details.clone(),
            state: self.state.clone(),
            timestamps: self.timestamps.clone(),
            assets: self.assets.clone(),
            buttons,
        }
    }
}

} // verus!
