//! The view that shows one image for ever.
use vstd::prelude::*;

verus! {

/// Shows the image at `path` and never changes it.
pub struct StaticView {
    pub path: String,
}

impl super::View for StaticView {
    fn initial(&self) -> (r: String)
        ensures
            r@ == self.path@,
    {
        self.path.clone()
    }
}

} // verus!
