use vstd::prelude::*;

use crate::connection::{ActiveConnection, WorkerClient};
use crate::error::{LoadBalancerError, LoadBalancerResult};
use crate::uri::{decimal, decimal_string, opt_str_view, parse_uri, uri_parts_of};

verus! {

/// The scheme used when a worker's address names none.
pub open spec fn default_scheme() -> Seq<char> {
    seq!['h', 't', 't', 'p']
}

/// The port used when a worker's address names none.
pub const DEFAULT_PORT: u16 = 80;

/// A worker's address as the load balancer reads it.
pub struct WorkerUriView {
    pub scheme: Option<Seq<char>>,
    pub host: Seq<char>,
    pub port: Option<u16>,
}

impl WorkerUriView {
    pub open spec fn effective_scheme(self) -> Seq<char> {
        match self.scheme {
            Some(s) => s,
            None => default_scheme(),
        }
    }

    pub open spec fn effective_port(self) -> u16 {
        match self.port {
            Some(p) => p,
            None => DEFAULT_PORT,
        }
    }

    /// `host:port`, the port always written out.
    pub open spec fn authority(self) -> Seq<char> {
        self.host + seq![':'] + decimal(self.effective_port() as nat)
    }

    /// `scheme://host:port`.
    pub open spec fn origin(self) -> Seq<char> {
        self.effective_scheme() + seq![':', '/', '/'] + self.authority()
    }
}

/// The address of a worker: an absolute URI that names a host.
pub struct WorkerUri {
    scheme: Option<String>,
    host: String,
    port: Option<u16>,
}

impl View for WorkerUri {
    type V = WorkerUriView;

    closed spec fn view(&self) -> WorkerUriView {
        WorkerUriView { scheme: opt_str_view(self.scheme), host: self.host@, port: self.port }
    }
}

fn copy_opt_string(o: &Option<String>) -> (r: Option<String>)
    ensures
        opt_str_view(r) == opt_str_view(*o),
{
    match o {
        Some(s) => Some(s.clone()),
        None => None,
    }
}

impl WorkerUri {
    /// The scheme, `http` when the address names none.
    pub fn scheme(&self) -> (r: String)
        ensures
            r@ == self@.effective_scheme(),
    {
        match &self.scheme {
            Some(s) => s.clone(),
            None => {
                let r = String::from_str("http");
                proof {
                    reveal_strlit("http");
                }
                r
            },
        }
    }

    pub fn host(&self) -> (r: &str)
        ensures
            r@ == self@.host,
    {
        self.host.as_str()
    }

    /// The port, 80 when the address names none.
    pub fn port(&self) -> (r: u16)
        ensures
            r == self@.effective_port(),
    {
        match self.port {
            Some(p) => p,
            None => DEFAULT_PORT,
        }
    }

    /// `host:port`, the value of the `Host` header sent to this worker.
    pub fn authority(&self) -> (r: String)
        ensures
            r@ == self@.authority(),
    {
        let h = self.host.clone();
        let with_colon = h.concat(":");
        proof {
            reveal_strlit(":");
        }
        let digits = decimal_string(self.port());
        with_colon.concat(digits.as_str())
    }

    /// `scheme://host:port`.
    pub fn origin(&self) -> (r: String)
        ensures
            r@ == self@.origin(),
    {
        let s = self.scheme();
        let s = s.concat("://");
        proof {
            reveal_strlit("://");
        }
        let a = self.authority();
        s.concat(a.as_str())
    }

    pub fn duplicate(&self) -> (r: WorkerUri)
        ensures
            r@ == self@,
    {
        WorkerUri { scheme: copy_opt_string(&self.scheme), host: self.host.clone(), port: self.port }
    }
}

#[derive(Debug, Clone, Copy, PartialEq, Eq, Structural)]
pub enum WorkerStatus {
    Pending,
    Starting,
    Up,
    Down,
    Failed,
    Unknown,
}

impl Default for WorkerStatus {
    fn default() -> (r: WorkerStatus)
        ensures
            r == WorkerStatus::Pending,
    {
        WorkerStatus::Pending
    }
}

/// The connections that a worker has acknowledged.
pub struct ActiveConnections {
    data: Vec<ActiveConnection>,
}

/// The clients of a sequence of connections.
pub open spec fn clients_of(s: Seq<ActiveConnection>) -> Seq<Seq<char>> {
    s.map_values(|c: ActiveConnection| c.client@)
}

impl View for ActiveConnections {
    type V = Seq<Seq<char>>;

    closed spec fn view(&self) -> Seq<Seq<char>> {
        clients_of(self.data@)
    }
}

impl ActiveConnections {
    pub fn new() -> (r: ActiveConnections)
        ensures
            r@ == Seq::<Seq<char>>::empty(),
    {
        ActiveConnections { data: Vec::new() }
    }

    pub fn len(&self) -> (r: usize)
        ensures
            r == self@.len(),
    {
        self.data.len()
    }

    /// Records `connection`, unless its client already has one here.
    pub fn try_add_connection(&mut self, connection: ActiveConnection) -> (r: LoadBalancerResult<()>)
        ensures
            old(self)@.contains(connection.client@) <==> r is Err,
            match r {
                Ok(_) => final(self)@ == old(self)@.push(connection.client@),
                Err(e) => final(self)@ == old(self)@ && e == LoadBalancerError::AlreadyConnected(
                    connection.client,
                ),
            },
    {
        let mut i: usize = 0;
        while i < self.data.len()
            invariant
                0 <= i <= self.data@.len(),
                forall|j: int| 0 <= j < i ==> self.data@[j].client@ != connection.client@,
            decreases self.data@.len() - i,
        {
            if self.data[i] == connection {
                assert(self@[i as int] == connection.client@);
                return Err(LoadBalancerError::AlreadyConnected(connection.client));
            }
            i = i + 1;
        }
        assert(!self@.contains(connection.client@)) by {
            if self@.contains(connection.client@) {
                let k = choose|k: int| 0 <= k < self@.len() && self@[k] == connection.client@;
                assert(self.data@[k].client@ == connection.client@);
            }
        }
        self.copy_push(connection);
        Ok(())
    }

    fn copy_push(&mut self, connection: ActiveConnection)
        ensures
            final(self)@ == old(self)@.push(connection.client@),
    {
        self.data.push(connection);
        assert(final(self)@ =~= old(self)@.push(connection.client@));
    }

    pub fn duplicate(&self) -> (r: ActiveConnections)
        ensures
            r@ == self@,
    {
        let mut data: Vec<ActiveConnection> = Vec::new();
        let mut i: usize = 0;
        while i < self.data.len()
            invariant
                0 <= i <= self.data@.len(),
                data@.len() == i,
                forall|j: int| 0 <= j < i ==> data@[j].client@ == self.data@[j].client@,
            decreases self.data@.len() - i,
        {
            data.push(ActiveConnection { client: self.data[i].client.clone() });
            i = i + 1;
        }
        let r = ActiveConnections { data };
        assert(r@ =~= self@);
        r
    }
}

/// A worker as the load balancer sees it.
pub struct WorkerView {
    pub address: WorkerUriView,
    pub status: WorkerStatus,
    pub clients: Seq<Seq<char>>,
}

/// The worker that the address `a` describes, if it is a URI that names a host:
/// status `Pending`, no connections.
pub open spec fn worker_of(a: Seq<char>) -> Option<WorkerView> {
    match uri_parts_of(a) {
        Some((scheme, Some(host), port)) => Some(
            WorkerView {
                address: WorkerUriView { scheme, host, port },
                status: WorkerStatus::Pending,
                clients: Seq::empty(),
            },
        ),
        _ => None,
    }
}

/// The message of the error for an address that describes no worker.
pub open spec fn invalid_uri_message(a: Seq<char>) -> Seq<char> {
    seq!['I', 'n', 'v', 'a', 'l', 'i', 'd', ' ', 'U', 'R', 'I', ' '] + a
}

/// A backend server that requests can be forwarded to.
pub struct Worker {
    address: WorkerUri,
    status: WorkerStatus,
    connections: ActiveConnections,
}

impl View for Worker {
    type V = WorkerView;

    closed spec fn view(&self) -> WorkerView {
        WorkerView { address: self.address@, status: self.status, clients: self.connections@ }
    }
}

impl Worker {
    /// Builds the worker at `address`, which must parse as a URI with a host.
    pub fn from_address(address: String) -> (r: LoadBalancerResult<Worker>)
        ensures
            match r {
                Ok(w) => worker_of(address@) == Some(w@),
                Err(e) => worker_of(address@) is None && (e matches LoadBalancerError::GenericError(
                    m,
                ) && m@ == invalid_uri_message(address@)),
            },
    {
        match parse_uri(address.as_str()) {
            Ok(parts) => {
                match parts.host {
                    Some(host) => {
                        let w = Worker {
                            address: WorkerUri { scheme: parts.scheme, host, port: parts.port },
                            status: WorkerStatus::Pending,
                            connections: ActiveConnections::new(),
                        };
                        assert(w@ == worker_of(address@).unwrap());
                        Ok(w)
                    },
                    None => Err(LoadBalancerError::GenericError(invalid_uri_text(&address))),
                }
            },
            Err(_) => Err(LoadBalancerError::GenericError(invalid_uri_text(&address))),
        }
    }

    /// Acknowledges a connection from `client`; a client is acknowledged once.
    pub fn ack_connection(&mut self, client: WorkerClient) -> (r: LoadBalancerResult<()>)
        ensures
            final(self)@.address == old(self)@.address,
            final(self)@.status == old(self)@.status,
            old(self)@.clients.contains(client@) <==> r is Err,
            match r {
                Ok(_) => final(self)@.clients == old(self)@.clients.push(client@),
                Err(e) => final(self)@.clients == old(self)@.clients
                    && e == LoadBalancerError::AlreadyConnected(client),
            },
    {
        let connection = ActiveConnection { client };
        self.connections.try_add_connection(connection)
    }

    pub fn uri(&self) -> (r: &WorkerUri)
        ensures
            r@ == self@.address,
    {
        &self.address
    }

    pub fn status(&self) -> (r: WorkerStatus)
        ensures
            r == self@.status,
    {
        self.status
    }

    /// Moves the worker to another stage of its lifecycle.
    pub fn set_status(&mut self, status: WorkerStatus)
        ensures
            final(self)@ == (WorkerView { status, ..old(self)@ }),
    {
        self.status = status;
    }

    /// The number of connections acknowledged from this worker.
    pub fn connection_count(&self) -> (r: usize)
        ensures
            r == self@.clients.len(),
    {
        self.connections.len()
    }

    pub fn accepts_connection(&self) -> (r: bool)
        ensures
            r == (self@.status == WorkerStatus::Up),
    {
        self.status == WorkerStatus::Up
    }

    pub fn duplicate(&self) -> (r: Worker)
        ensures
            r@ == self@,
    {
        Worker {
            address: self.address.duplicate(),
            status: self.status,
            connections: self.connections.duplicate(),
        }
    }
}

fn invalid_uri_text(address: &String) -> (r: String)
    ensures
        r@ == invalid_uri_message(address@),
{
    let prefix = String::from_str("Invalid URI ");
    proof {
        reveal_strlit("Invalid URI ");
    }
    prefix.concat(address.as_str())
}

/// The message of the error for a registry built from no address.
pub open spec fn no_worker_message() -> Seq<char> {
    seq![
        'A', 't', ' ', 'l', 'e', 'a', 's', 't', ' ', '1', ' ', 'w', 'o', 'r', 'k', 'e', 'r', ' ',
        'm', 'u', 's', 't', ' ', 'b', 'e', ' ', 's', 'p', 'e', 'c', 'i', 'f', 'i', 'e', 'd', '.',
    ]
}

/// The views of a sequence of strings.
pub open spec fn addresses(list: Seq<String>) -> Seq<Seq<char>> {
    list.map_values(|s: String| s@)
}

/// `s` without repetitions, each element kept at its first occurrence.
pub open spec fn distinct(s: Seq<Seq<char>>) -> Seq<Seq<char>>
    decreases s.len(),
{
    if s.len() == 0 {
        Seq::empty()
    } else {
        let d = distinct(s.drop_last());
        if d.contains(s.last()) {
            d
        } else {
            d.push(s.last())
        }
    }
}

/// The workers that the addresses `s` describe, in order; an address that
/// describes none is skipped.
pub open spec fn workers_from(s: Seq<Seq<char>>) -> Seq<WorkerView>
    decreases s.len(),
{
    if s.len() == 0 {
        Seq::empty()
    } else {
        let w = workers_from(s.drop_last());
        match worker_of(s.last()) {
            Some(v) => w.push(v),
            None => w,
        }
    }
}

/// Removing repetitions leaves a sequence empty exactly when it was empty.
pub proof fn lemma_distinct_empty(s: Seq<Seq<char>>)
    ensures
        distinct(s).len() == 0 <==> s.len() == 0,
    decreases s.len(),
{
    if s.len() > 0 {
        lemma_distinct_empty(s.drop_last());
        let d = distinct(s.drop_last());
        if d.contains(s.last()) {
            assert(d.len() > 0);
        }
    }
}

/// Deduplication keeps each address once and loses none: the result has no
/// repetitions and holds exactly the addresses of `s`.
pub proof fn lemma_distinct_dedups(s: Seq<Seq<char>>)
    ensures
        distinct(s).no_duplicates(),
        forall|a: Seq<char>| #[trigger] distinct(s).contains(a) <==> s.contains(a),
    decreases s.len(),
{
    if s.len() > 0 {
        let init = s.drop_last();
        lemma_distinct_dedups(init);
        let d = distinct(init);
        assert forall|a: Seq<char>| #[trigger] distinct(s).contains(a) <==> s.contains(a) by {
            if s.contains(a) && a != s.last() {
                let k = choose|k: int| 0 <= k < s.len() && s[k] == a;
                assert(init[k] == a);
            }
            if init.contains(a) {
                let k = choose|k: int| 0 <= k < init.len() && init[k] == a;
                assert(s[k] == a);
            }
            if !d.contains(s.last()) && a == s.last() {
                assert(d.push(s.last())[d.len() as int] == a);
            }
            if !d.contains(s.last()) && d.push(s.last()).contains(a) && a != s.last() {
                let k = choose|k: int| 0 <= k < d.len() + 1 && d.push(s.last())[k] == a;
                assert(d[k] == a);
            }
            if !d.contains(s.last()) && d.contains(a) {
                let k = choose|k: int| 0 <= k < d.len() && d[k] == a;
                assert(d.push(s.last())[k] == a);
            }
            assert(s[s.len() - 1] == s.last());
        }
        if !d.contains(s.last()) {
            let e = d.push(s.last());
            assert forall|i: int, j: int| 0 <= i < e.len() && 0 <= j < e.len() && i != j implies e[i] != e[j] by {
                if i < d.len() && j < d.len() {
                } else if i < d.len() {
                    assert(d.contains(e[i]));
                } else {
                    assert(d.contains(e[j]));
                }
            }
        }
    }
}

/// The workers a load balancer forwards to, fixed once built.
pub struct WorkersList(Vec<Worker>);

impl View for WorkersList {
    type V = Seq<WorkerView>;

    closed spec fn view(&self) -> Seq<WorkerView> {
        self.0@.map_values(|w: Worker| w@)
    }
}

fn contains_address(v: &Vec<String>, a: &String) -> (r: bool)
    ensures
        r == addresses(v@).contains(a@),
{
    let mut i: usize = 0;
    while i < v.len()
        invariant
            0 <= i <= v@.len(),
            forall|j: int| 0 <= j < i ==> v@[j]@ != a@,
        decreases v@.len() - i,
    {
        if v[i] == *a {
            assert(addresses(v@)[i as int] == a@);
            return true;
        }
        i = i + 1;
    }
    assert(!addresses(v@).contains(a@)) by {
        if addresses(v@).contains(a@) {
            let k = choose|k: int| 0 <= k < addresses(v@).len() && addresses(v@)[k] == a@;
            assert(v@[k]@ == a@);
        }
    }
    false
}

/// The addresses of `list` without repetitions, each at its first occurrence.
pub fn distinct_addresses(list: Vec<String>) -> (r: Vec<String>)
    ensures
        addresses(r@) == distinct(addresses(list@)),
{
    let ghost all = addresses(list@);
    let mut uniq: Vec<String> = Vec::new();
    let mut i: usize = 0;
    while i < list.len()
        invariant
            0 <= i <= list@.len(),
            all == addresses(list@),
            addresses(uniq@) =~= distinct(all.take(i as int)),
        decreases list@.len() - i,
    {
        let a = list[i].clone();
        assert(all.take(i + 1).drop_last() =~= all.take(i as int));
        assert(all.take(i + 1).last() == a@);
        if !contains_address(&uniq, &a) {
            uniq.push(a);
            assert(addresses(uniq@) =~= distinct(all.take(i as int)).push(list@[i as int]@));
        }
        i = i + 1;
    }
    assert(all.take(i as int) =~= all);
    uniq
}

impl WorkersList {
    /// Builds the registry from worker addresses. Repeated addresses count once;
    /// an address that does not describe a worker is skipped. Fails when no
    /// address is given.
    pub fn parse(list: Vec<String>) -> (r: LoadBalancerResult<WorkersList>)
        ensures
            r is Err <==> list@.len() == 0,
            match r {
                Ok(w) => w@ == workers_from(distinct(addresses(list@))),
                Err(e) => e matches LoadBalancerError::ConfigError(m) && m@ == no_worker_message(),
            },
    {
        let ghost all = addresses(list@);
        let uniq = distinct_addresses(list);
        proof {
            lemma_distinct_empty(all);
        }
        if uniq.len() == 0 {
            let msg = String::from_str("At least 1 worker must be specified.");
            proof {
                reveal_strlit("At least 1 worker must be specified.");
                assert(msg@ =~= no_worker_message());
            }
            return Err(LoadBalancerError::ConfigError(msg));
        }
        let ghost names = addresses(uniq@);
        let mut workers: Vec<Worker> = Vec::new();
        let mut i: usize = 0;
        while i < uniq.len()
            invariant
                0 <= i <= uniq@.len(),
                names == addresses(uniq@),
                workers@.map_values(|w: Worker| w@) =~= workers_from(names.take(i as int)),
            decreases uniq@.len() - i,
        {
            let address = uniq[i].clone();
            assert(names.take(i + 1).drop_last() =~= names.take(i as int));
            assert(names.take(i + 1).last() == address@);
            match Worker::from_address(address) {
                Ok(w) => {
                    workers.push(w);
                },
                Err(_) => {},
            }
            i = i + 1;
        }
        assert(names.take(i as int) =~= names);
        Ok(WorkersList(workers))
    }

    pub fn len(&self) -> (r: usize)
        ensures
            r == self@.len(),
    {
        self.0.len()
    }

    pub fn is_empty(&self) -> (r: bool)
        ensures
            r == (self@.len() == 0),
    {
        self.0.len() == 0
    }

    /// The worker at `index`, if there is one.
    pub fn get(&self, index: usize) -> (r: Option<&Worker>)
        ensures
            index < self@.len() ==> (r matches Some(w) && w@ == self@[index as int]),
            index >= self@.len() ==> r is None,
    {
        if index < self.0.len() {
            Some(&self.0[index])
        } else {
            None
        }
    }
}

} // verus!
