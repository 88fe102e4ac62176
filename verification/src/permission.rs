//! What the permission judge and the user decide about tool requests.
use vstd::prelude::*;
use crate::ids::occurrences;
use crate::message::{ToolRequest, ToolRequestView};

verus! {

/// A decision of the user on one request.
#[derive(Clone, Copy, Debug, PartialEq, Eq, Structural)]
pub enum Permission {
    AlwaysAllow,
    AllowOnce,
    Cancel,
    DenyOnce,
}

/// What a decision is about.
#[derive(Clone, Copy, Debug, PartialEq, Eq, Structural)]
pub enum PrincipalType {
    Extension,
    Tool,
}

/// A confirmation or denial that the user supplies for one request.
#[derive(Clone, Copy, Debug, PartialEq, Eq, Structural)]
pub struct PermissionConfirmation {
    pub principal_type: PrincipalType,
    pub permission: Permission,
}

impl PermissionConfirmation {
    /// Whether the decision lets the call run.
    pub open spec fn allows(&self) -> bool {
        self.permission == Permission::AllowOnce || self.permission == Permission::AlwaysAllow
    }

    pub fn is_allowed(&self) -> (allowed: bool)
        ensures
            allowed == self.allows(),
    {
        match self.permission {
            Permission::AllowOnce => true,
            Permission::AlwaysAllow => true,
            Permission::Cancel => false,
            Permission::DenyOnce => false,
        }
    }
}

/// How the permission judge sorted the requests of a turn.
#[derive(Debug, PartialEq, Eq)]
pub struct PermissionCheckResult {
    pub approved: Vec<ToolRequest>,
    pub needs_approval: Vec<ToolRequest>,
    pub denied: Vec<ToolRequest>,
}

pub struct PermissionCheckResultView {
    pub approved: Seq<ToolRequestView>,
    pub needs_approval: Seq<ToolRequestView>,
    pub denied: Seq<ToolRequestView>,
}

impl View for PermissionCheckResult {
    type V = PermissionCheckResultView;

    open spec fn view(&self) -> PermissionCheckResultView {
        PermissionCheckResultView {
            approved: self.approved.deep_view(),
            needs_approval: self.needs_approval.deep_view(),
            denied: self.denied.deep_view(),
        }
    }
}

/// The ids of a list of requests, in their order.
pub open spec fn ids_of(requests: Seq<ToolRequestView>) -> Seq<Seq<char>> {
    Seq::new(requests.len(), |i: int| requests[i].id)
}

impl PermissionCheckResultView {
    /// All requests that were sorted: the approved ones, then the denied ones, then those that
    /// need approval.
    pub open spec fn all(self) -> Seq<ToolRequestView> {
        self.approved + self.denied + self.needs_approval
    }

    /// The id of each of `requests` stands in exactly one of the three lists, as often as
    /// among `requests`, and no other id stands in them.
    pub open spec fn sorts(self, requests: Seq<ToolRequestView>) -> bool {
        forall|id: Seq<char>|
            occurrences(ids_of(self.all()), id) == occurrences(ids_of(requests), id)
    }
}

} // verus!
