use vstd::prelude::*;

verus! {

/// The identity of a client connected through a worker.
pub type WorkerClient = String;

#[derive(Debug, Clone)]
pub struct ActiveConnection {
    /// The client that is connected to the load balancer.
    pub client: WorkerClient,
}

impl PartialEq for ActiveConnection {
    fn eq(&self, other: &Self) -> (r: bool) {
        self.client == other.client
    }
}

impl vstd::std_specs::cmp::PartialEqSpecImpl for ActiveConnection {
    open spec fn obeys_eq_spec() -> bool {
        true
    }

    open spec fn eq_spec(&self, other: &ActiveConnection) -> bool {
        self.client@ == other.client@
    }
}

} // verus!
