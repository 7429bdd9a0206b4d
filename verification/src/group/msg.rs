use vstd::prelude::*;

verus! {

/// A member of a named group: an address, the name under which the group
/// knows it, and its voting weight.
#[derive(Clone, Debug, PartialEq)]
pub struct MemberNamed {
    pub addr: String,
    pub name: String,
    pub weight: u64,
}

#[derive(Clone, Debug, PartialEq)]
pub struct MemberNamedListResponse {
    pub members: Vec<MemberNamed>,
}

#[derive(Clone, Debug, PartialEq)]
pub struct LookUpResponse {
    pub name: Option<String>,
}

#[derive(Clone, Debug, PartialEq)]
pub struct ReverseLookUpResponse {
    pub addr: Option<String>,
}

#[derive(Clone, Debug, PartialEq)]
pub struct InstantiateMsg {
    /// The admin is the only account that can update the group state.
    /// Omit it to make the group immutable.
    pub admin: Option<String>,
    pub members: Vec<MemberNamed>,
}

#[derive(Clone, Debug, PartialEq)]
pub enum ExecuteMsg {
    /// Change the admin
    UpdateAdmin { admin: Option<String> },
    /// apply a diff to the existing members.
    /// remove is applied after add, so if an address is in both, it is removed
    UpdateMembers { remove: Vec<String>, add: Vec<MemberNamed> },
    /// Add a new hook to be informed of all membership changes. Must be called by Admin
    AddHook { addr: String },
    /// Remove a hook. Must be called by Admin
    RemoveHook { addr: String },
}

#[derive(Clone, Debug, PartialEq)]
pub enum QueryMsg {
    Admin {},
    TotalWeight { at_height: Option<u64> },
    ListMembers { start_after: Option<String>, limit: Option<u32> },
    Member { addr: String, at_height: Option<u64> },
    LookUp { addr: String },
    ReverseLookUp { name: String },
    /// Shows all registered hooks.
    Hooks {},
}

} // verus!
