use vstd::prelude::*;

use crate::error::LoadBalancerResult;
use crate::proxy::{
    headers_view, is_unavailable, no_workers_body, target_of, upstream_headers, upstream_headers_of,
    upstream_target, Header, ProxyResponse, no_workers_response,
};
use crate::selector::{round_robin_next, NextWorkerSelector, WorkerSelectionStrategy};
use crate::worker::{Worker, WorkerUriView, WorkerView, WorkersList};

verus! {

/// What the proxy reads of an inbound request to route it.
pub struct InboundRequest {
    pub path_and_query: Option<String>,
    pub headers: Vec<Header>,
}

impl InboundRequest {
    pub open spec fn path_and_query_view(&self) -> Option<Seq<char>> {
        match self.path_and_query {
            Some(pq) => Some(pq@),
            None => None,
        }
    }
}

/// The request to send to a worker, over a fresh connection to `host:port`.
pub struct UpstreamRequest {
    pub target: String,
    pub host: String,
    pub port: u16,
    pub headers: Vec<Header>,
}

/// `u` is what `request` becomes when it is sent to the worker at `address`.
pub open spec fn forwards_to(u: UpstreamRequest, address: WorkerUriView, request: InboundRequest) -> bool {
    &&& u.target@ == target_of(address, request.path_and_query_view())
    &&& u.host@ == address.host
    &&& u.port == address.effective_port()
    &&& headers_view(u.headers@) == upstream_headers_of(headers_view(request.headers@), address.authority())
}

/// What to do with an inbound request.
pub enum ForwardAction {
    /// Answer at once, without a worker.
    Respond(ProxyResponse),
    /// Send this request to a worker and relay its answer.
    Forward(UpstreamRequest),
}

/// The registry of workers and the selector that picks among them.
pub struct LoadBalancer {
    workers_list: WorkersList,
    next_worker_selector: NextWorkerSelector,
}

impl LoadBalancer {
    pub closed spec fn workers(&self) -> Seq<WorkerView> {
        self.workers_list@
    }

    pub closed spec fn cursor(&self) -> int {
        self.next_worker_selector.cursor()
    }

    pub closed spec fn strategy(&self) -> WorkerSelectionStrategy {
        self.next_worker_selector.strategy()
    }

    pub fn new(workers_list: WorkersList) -> (r: LoadBalancerResult<LoadBalancer>)
        ensures
            r matches Ok(lb) && lb.workers() == workers_list@ && lb.cursor() == 0 && lb.strategy()
                == WorkerSelectionStrategy::RoundRobin,
    {
        Ok(LoadBalancer { workers_list, next_worker_selector: NextWorkerSelector::new() })
    }

    /// A copy of the next worker, or `None` when there is none.
    pub fn get_worker(&mut self) -> (r: Option<Worker>)
        ensures
            final(self).workers() == old(self).workers(),
            final(self).strategy() == old(self).strategy(),
            old(self).workers().len() == 0 ==> r is None && final(self).cursor() == old(self).cursor(),
            old(self).workers().len() > 0 ==> {
                &&& final(self).cursor() == round_robin_next(old(self).cursor(), old(self).workers().len() as int)
                &&& r matches Some(w) && w@ == old(self).workers()[final(self).cursor()]
            },
    {
        match self.next_worker_selector.select_next_worker(&self.workers_list) {
            Some(w) => Some(w.duplicate()),
            None => None,
        }
    }

    /// Routes `request`: a 503 when there is no worker, otherwise the request
    /// to send to the next worker.
    pub fn forward_request(&mut self, request: &InboundRequest) -> (r: ForwardAction)
        ensures
            final(self).workers() == old(self).workers(),
            final(self).strategy() == old(self).strategy(),
            old(self).workers().len() == 0 ==> {
                &&& final(self).cursor() == old(self).cursor()
                &&& r matches ForwardAction::Respond(resp) && is_unavailable(resp, no_workers_body())
            },
            old(self).workers().len() > 0 ==> {
                &&& final(self).cursor() == round_robin_next(old(self).cursor(), old(self).workers().len() as int)
                &&& r matches ForwardAction::Forward(u) && forwards_to(
                    u,
                    old(self).workers()[final(self).cursor()].address,
                    *request,
                )
            },
    {
        match self.next_worker_selector.select_next_worker(&self.workers_list) {
            None => ForwardAction::Respond(no_workers_response()),
            Some(worker) => {
                let address = worker.uri();
                let target = upstream_target(address, &request.path_and_query);
                let authority = address.authority();
                let headers = upstream_headers(&request.headers, authority.as_str());
                let host = String::from_str(address.host());
                ForwardAction::Forward(UpstreamRequest { target, host, port: address.port(), headers })
            },
        }
    }

    pub fn update_selection_strategy(&mut self, selection_strategy: WorkerSelectionStrategy)
        ensures
            final(self).workers() == old(self).workers(),
            final(self).strategy() == selection_strategy,
            final(self).cursor() == old(self).cursor(),
    {
        self.next_worker_selector.set_strategy(selection_strategy);
    }
}

} // verus!
