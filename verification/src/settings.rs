//! The structured configuration object the client keeps in its settings
//! store: the list of repositories it knows. Reading and writing the store
//! itself is the surrounding application's concern; this is the value it
//! carries.

use vstd::prelude::*;

verus! {

/// The client's settings: the repositories it can connect to, each named
/// by its connection string.
pub struct Settings {
    pub repositories: Vec<String>,
}

impl Settings {
    /// Settings with no repositories.
    pub fn new() -> (s: Self)
        ensures
            s.repositories@.len() == 0,
    {
        Settings { repositories: Vec::new() }
    }
}

impl Default for Settings {
    /// The default settings carry no repositories.
    fn default() -> (s: Self)
        ensures
            s.repositories@.len() == 0,
    {
        Settings::new()
    }
}

} // verus!
