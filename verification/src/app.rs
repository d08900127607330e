//! The application core.

use vstd::prelude::*;

verus! {

/// The application core: it coordinates the configuration, the runbooks and
/// the engine that runs them.
#[derive(Debug)]
pub struct App {}

impl App {
    /// Set up a new instance of the app.
    pub fn setup() -> (r: App)
        ensures
            r == (App {  }),
    {
        App {  }
    }
}

} // verus!
