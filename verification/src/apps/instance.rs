//! An application instance.
use vstd::prelude::*;

verus! {

/// An application, by its id and `app.name`. Channels, resources and announcements are
/// not held here; they are read from their tables when needed.
pub struct AppInstance {
    pub id: u128,
    pub name: String,
}

impl AppInstance {
    /// An instance of app `id` named `name`.
    pub fn new(id: u128, name: String) -> (a: AppInstance)
        ensures
            a.id == id,
            a.name == name,
    {
        AppInstance { id, name }
    }
}

impl Clone for AppInstance {
    fn clone(&self) -> (out: AppInstance)
        ensures
            out == *self,
    {
        AppInstance { id: self.id, name: self.name.clone() }
    }
}

} // verus!
