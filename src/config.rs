use vstd::prelude::*;

use crate::error::{LoadBalancerError, LoadBalancerResult};
use crate::worker::{addresses, distinct, no_worker_message, workers_from, WorkersList};

verus! {

/// The address the proxy listens on: every interface.
pub open spec fn any_interface() -> Seq<char> {
    seq!['0', '.', '0', '.', '0', '.', '0']
}

/// The settings of a running load balancer.
pub struct Config {
    pub port: u16,
    pub address: String,
    pub worker_hosts: WorkersList,
}

impl Config {
    /// The configuration for listening on `port` of every interface and
    /// forwarding to the workers at `workers`.
    pub fn new(port: u16, workers: Vec<String>) -> (r: LoadBalancerResult<Config>)
        ensures
            r is Err <==> workers@.len() == 0,
            match r {
                Ok(c) => c.port == port && c.address@ == any_interface() && c.worker_hosts@
                    == workers_from(distinct(addresses(workers@))),
                Err(e) => e matches LoadBalancerError::ConfigError(m) && m@ == no_worker_message(),
            },
    {
        let worker_hosts = match WorkersList::parse(workers) {
            Ok(w) => w,
            Err(e) => return Err(e),
        };
        let address = String::from_str("0.0.0.0");
        proof {
            reveal_strlit("0.0.0.0");
            assert(address@ =~= any_interface());
        }
        Ok(Config { port, address, worker_hosts })
    }
}

} // verus!
