//! The configured identity that outgoing messages are sent under.

use vstd::prelude::*;

verus! {

/// The optional display name and icon of the sending user.
#[derive(Clone, PartialEq, Eq, Debug)]
pub struct UserSettings {
    pub name: Option<String>,
    pub icon_url: Option<String>,
}

impl UserSettings {
    /// The settings used when none are configured: no name, no icon.
    pub fn default() -> (r: UserSettings)
        ensures
            r.name is None,
            r.icon_url is None,
    {
        UserSettings { name: None, icon_url: None }
    }
}

} // verus!
