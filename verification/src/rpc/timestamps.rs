//! Activity timestamps.
use vstd::prelude::*;

verus! {

/// Start and end of an activity, in Unix time.
#[derive(Debug)]
pub struct Timestamps {
    /// When the activity started.
    pub start: Option<u64>,
    /// When the activity ends.
    pub end: Option<u64>,
}

impl Clone for Timestamps {
    fn clone(&self) -> (res: Self)
        ensures
            res == *self,
    {
        Timestamps { start: self.start, end: self.end }
    }
}

impl Default for Timestamps {
    fn default() -> (res: Self)
        ensures
            res.start is None,
            res.end is None,
    {
        Timestamps { start: None, end: None }
    }
}

} // verus!
