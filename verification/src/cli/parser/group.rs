//! The `group` subcommand.
use vstd::prelude::*;

verus! {

/// The `group` subcommand and the action it asks for.
pub struct GroupCommand {
    pub command: GroupActions,
}

/// What to do with groups.
pub enum GroupActions {
    /// List all registered groups.
    List,
    /// Create a new group.
    Create(CreateOpts),
    /// Edit an existing group.
    Edit,
}

/// Options of group creation.
pub struct CreateOpts {
    /// The group's name.
    pub name: Option<String>,
}

} // verus!
