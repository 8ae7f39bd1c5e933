//! Activity artwork.
use vstd::prelude::*;

verus! {

/// Images and their hover texts shown with an activity.
#[derive(Debug)]
pub struct Assets {
    /// Key of the large image.
    pub large_image: Option<String>,
    /// Hover text of the large image.
    pub large_text: Option<String>,
    /// Key of the small image.
    pub small_image: Option<String>,
    /// Hover text of the small image.
    pub small_text: Option<String>,
}

impl Clone for Assets {
    fn clone(&self) -> (res: Self)
        ensures
            res == *self,
    {
        Assets {
            large_image: self.large_image.clone(),
            large_text: self.large_text.clone(),
            small_image: self.small_image.clone(),
            small_text: self.small_text.clone(),
        }
    }
}

impl Default for Assets {
    fn default() -> (res: Self)
        ensures
            res.large_image is None,
            res.large_text is None,
            res.small_image is None,
            res.small_text is None,
    {
        Assets { large_image: None, large_text: None, small_image: None, small_text: None }
    }
}

} // verus!
