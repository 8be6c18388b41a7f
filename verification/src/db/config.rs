//! Where a store lives.

use vstd::prelude::*;

verus! {

/// Where a store lives, and whether it outlives the handle.
#[derive(Debug)]
pub struct Config {
    /// The directory of the store.
    pub path: String,
    /// A temporary store is removed when its handle is dropped.
    pub temporary: bool,
}

impl Clone for Config {
    fn clone(&self) -> (r: Self)
        ensures
            r == *self,
    {
        Config { path: self.path.clone(), temporary: self.temporary }
    }
}

impl Default for Config {
    fn default() -> (r: Self)
        ensures
            r.path@ == "turlsdata"@,
            !r.temporary,
    {
        Config { path: "turlsdata".to_owned(), temporary: false }
    }
}

} // verus!
