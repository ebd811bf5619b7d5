//! The last request of an agent client and what was answered.

use crate::agent_compat::request::AgentRequestSummary;
use crate::agent_compat::response::AgentResponseSummary;
use vstd::prelude::*;

verus! {

/// The last request of an agent client and what was answered.
pub struct AgentDebugSnapshot {
    pub request: Option<AgentRequestSummary>,
    pub response: Option<AgentResponseSummary>,
}

impl AgentDebugSnapshot {
    /// Remembers a request; nothing was answered to it yet.
    pub fn asked(&mut self, request: AgentRequestSummary)
        ensures
            final(self).request == Some(request),
            final(self).response is None,
    {
        self.request = Some(request);
        self.response = None;
    }

    /// Remembers what was answered.
    pub fn answered(&mut self, response: AgentResponseSummary)
        ensures
            final(self).response == Some(response),
            final(self).request == old(self).request,
    {
        self.response = Some(response);
    }
}

impl Default for AgentDebugSnapshot {
    fn default() -> (r: Self)
        ensures
            r.request is None,
            r.response is None,
    {
        AgentDebugSnapshot { request: None, response: None }
    }
}

} // verus!
