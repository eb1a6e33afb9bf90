//! Description of the graphics adapter.

use vstd::prelude::*;

verus! {

/// Name, backend and driver of the graphics adapter.
#[derive(Debug, Clone)]
pub struct GraphicsInfo {
    pub name: String,
    pub backend: String,
    pub driver: String,
}

impl GraphicsInfo {
    /// The description reported while the adapter is not queried: all empty.
    pub fn unreported() -> (r: GraphicsInfo)
        ensures
            r.name@.len() == 0,
            r.backend@.len() == 0,
            r.driver@.len() == 0,
    {
        GraphicsInfo { name: String::new(), backend: String::new(), driver: String::new() }
    }
}

} // verus!
