//! Navigation between the pages of the wizard front end.
use vstd::prelude::*;

verus! {

/// The pages of the wizard, in the order a user goes through them.
#[derive(Clone, Copy, Debug, PartialEq, Eq, Structural)]
pub enum Pages {
    /// Choosing the CSV file to load.
    Choose,
    /// Inspecting and normalizing the loaded table.
    Processing,
    /// Training and testing the model.
    Model,
}

impl Pages {
    /// The page shown when the user asks to go on from `self`. Leaving the
    /// file choice takes a loaded table: without one the user stays there.
    /// The model page is the last one.
    pub fn next(&self, data_loaded: bool) -> (p: Pages)
        ensures
            *self == Pages::Choose && data_loaded ==> p == Pages::Processing,
            *self == Pages::Choose && !data_loaded ==> p == Pages::Choose,
            *self == Pages::Processing ==> p == Pages::Model,
            *self == Pages::Model ==> p == Pages::Model,
    {
        match self {
            Pages::Choose => if data_loaded {
                Pages::Processing
            } else {
                Pages::Choose
            },
            Pages::Processing => Pages::Model,
            Pages::Model => Pages::Model,
        }
    }
}

} // verus!
