use vstd::prelude::*;

use crate::connection::WorkerClient;

verus! {

#[verifier::external_type_specification]
#[verifier::external_body]
pub struct ExHyperError(hyper::Error);

#[verifier::external_type_specification]
#[verifier::external_body]
pub struct ExHttpError(hyper::http::Error);

#[verifier::external_type_specification]
#[verifier::external_body]
pub struct ExInvalidUri(hyper::http::uri::InvalidUri);

#[verifier::external_type_specification]
#[verifier::external_body]
pub struct ExIoError(std::io::Error);

/// Every failure the load balancer can report, at startup or per request.
#[derive(Debug)]
pub enum LoadBalancerError {
    /// The configuration is unusable (for instance, no worker was given).
    ConfigError(String),
    /// A failure described by its message alone.
    GenericError(String),
    /// The listening socket or an upstream socket failed.
    TcpListenerError(std::io::Error),
    /// The HTTP protocol layer failed.
    HyperError(hyper::Error),
    /// An HTTP message could not be built.
    HttpError(hyper::http::Error),
    /// The client already has an acknowledged connection on this worker.
    AlreadyConnected(WorkerClient),
    /// An upstream URI could not be parsed.
    InvalidUri(hyper::http::uri::InvalidUri),
    /// A failure of unknown cause.
    UnknowError,
}

pub type LoadBalancerResult<T> = Result<T, LoadBalancerError>;

} // verus!
