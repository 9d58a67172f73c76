//! The user on whose behalf a request runs.

use crate::domain::app_user::AppUser;
use vstd::prelude::*;

verus! {

/// The user on whose behalf a request runs.
#[derive(Debug)]
pub struct Viewer {
    pub user: AppUser,
}

impl Viewer {
    /// The viewer that `user` is.
    pub fn new(user: AppUser) -> (viewer: Self)
        ensures
            viewer.user == user,
    {
        Self { user }
    }

    /// The viewer's given name.
    pub fn first_name(&self) -> (name: &str)
        ensures
            name@ == self.user.first_name@,
    {
        self.user.first_name.as_str()
    }

    /// The viewer's family name.
    pub fn last_name(&self) -> (name: &str)
        ensures
            name@ == self.user.last_name@,
    {
        self.user.last_name.as_str()
    }
}

} // verus!
