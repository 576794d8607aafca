//! The storage node's lifecycle.
//!
//! One long-lived node serves every upload of a run. The manager owns its
//! handle and keeps the invariant that the running flag and the handle's
//! presence move together, both under one exclusive section. Creating,
//! starting, stopping and destroying the real node happen outside this
//! crate; the manager decides when they happen and tracks the handle,
//! which it stands for by a plain token.

use vstd::prelude::*;

verus! {

/// Why a node operation failed.
#[derive(Debug)]
pub enum NodeManagerError {
    NodeCreationFailed(String),
    NodeStartFailed(String),
    NodeStopFailed(String),
    NodeDestroyFailed(String),
    ThreadSafetyError(String),
    NodeNotRunning,
    NodeOperationError(String),
}

/// The lifecycle state: the stored handle token and the running flag.
#[derive(Debug)]
pub struct CodexNodeManager {
    node: Option<u64>,
    is_running: bool,
}

impl CodexNodeManager {
    /// The stored handle, if any.
    pub closed spec fn spec_node(&self) -> Option<u64> {
        self.node
    }

    pub closed spec fn spec_running(&self) -> bool {
        self.is_running
    }

    /// The manager's invariant: running exactly when a handle is stored.
    pub open spec fn wf(&self) -> bool {
        self.spec_running() <==> self.spec_node() is Some
    }

    /// A fresh manager holds no node and is not running.
    pub fn new() -> (r: Self)
        ensures
            r.wf(),
            !r.spec_running(),
            r.spec_node() is None,
    {
        Self { node: None, is_running: false }
    }

    /// Whether a start request has work to do: starting an already running
    /// node is a no-op.
    pub fn should_start(&self) -> (r: bool)
        ensures
            r == !self.spec_running(),
    {
        !self.is_running
    }

    /// Store the handle of a node that was just created and started; the
    /// flag and the handle change together.
    pub fn note_started(&mut self, handle: u64)
        requires
            old(self).wf(),
            !old(self).spec_running(),
        ensures
            final(self).wf(),
            final(self).spec_running(),
            final(self).spec_node() == Some(handle),
    {
        self.node = Some(handle);
        self.is_running = true;
    }

    /// Take the handle out for stopping. Whatever the stop and destroy
    /// calls then return, the manager is no longer running: state is never
    /// left stuck. Stopping a stopped node is a no-op and yields nothing.
    pub fn take_node_for_stop(&mut self) -> (r: Option<u64>)
        requires
            old(self).wf(),
        ensures
            final(self).wf(),
            !final(self).spec_running(),
            final(self).spec_node() is None,
            r == old(self).spec_node(),
            old(self).spec_running() <==> r is Some,
    {
        let r = self.node.take();
        self.is_running = false;
        r
    }

    /// A cheap shareable handle for operations, or the reason there is
    /// none.
    pub fn get_node(&self) -> (r: Result<u64, NodeManagerError>)
        ensures
            !self.spec_running() ==> (r matches Err(e) && e is NodeNotRunning),
            self.spec_running() && self.spec_node() is Some ==> r == Ok::<u64, NodeManagerError>(
                self.spec_node()->Some_0,
            ),
            self.spec_running() && self.spec_node() is None ==> (r matches Err(e)
                && e is NodeOperationError),
    {
        if !self.is_running {
            return Err(NodeManagerError::NodeNotRunning);
        }
        match &self.node {
            Some(h) => Ok(*h),
            None => Err(
                NodeManagerError::NodeOperationError(String::from_str("Node not initialized")),
            ),
        }
    }

    pub fn is_running(&self) -> (r: bool)
        ensures
            r == self.spec_running(),
    {
        self.is_running
    }
}

} // verus!
