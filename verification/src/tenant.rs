//! The tenant mode of a deployment, and the rule that every request names a
//! tenant exactly where the mode calls for one.

use vstd::prelude::*;
use vstd::string::*;

verus! {

/// The kind of ledger behind a deployment.
#[derive(Clone, Copy, Debug, PartialEq, Eq, Structural)]
pub enum Backend {
    /// Many circuits share the store: every request names its circuit.
    Splinter,
    /// One ledger fills the store: no request names a circuit.
    Sawtooth,
}

/// The ledger endpoint that a deployment is configured with.
#[derive(Clone, Debug, PartialEq, Eq)]
pub struct Endpoint {
    pub backend: Backend,
    pub url: String,
}

impl Endpoint {
    /// Whether the deployment runs on one shared ledger.
    pub fn is_sawtooth(&self) -> (shared: bool)
        ensures
            shared == (self.backend == Backend::Sawtooth),
    {
        match self.backend {
            Backend::Sawtooth => true,
            Backend::Splinter => false,
        }
    }
}

/// The tenant that the query of a request names, if it names one.
#[derive(Clone, Debug, PartialEq, Eq)]
pub struct QueryServiceId {
    pub service_id: Option<String>,
}

/// How the tenant scope of a request fails to match the mode of the
/// deployment.
#[derive(Clone, Copy, Debug, PartialEq, Eq, Structural)]
pub enum TenantModeMismatch {
    /// The request names a tenant, and the deployment has one shared ledger.
    UnexpectedServiceId,
    /// The request names no tenant, and the deployment has many circuits.
    MissingServiceId,
}

/// The mismatch, if any, of a request that names a tenant or not in a
/// deployment that runs on one shared ledger or not.
pub open spec fn mismatch(shared: bool, named: bool) -> Option<TenantModeMismatch> {
    if named && shared {
        Some(TenantModeMismatch::UnexpectedServiceId)
    } else if !named && !shared {
        Some(TenantModeMismatch::MissingServiceId)
    } else {
        None
    }
}

/// The message that tells a client of a mismatch.
pub open spec fn mismatch_message(mismatch: TenantModeMismatch) -> Seq<char> {
    match mismatch {
        TenantModeMismatch::UnexpectedServiceId =>
            "Circuit ID present, but grid is running in sawtooth mode"@,
        TenantModeMismatch::MissingServiceId =>
            "Circuit ID is not present, but grid is running in splinter mode"@,
    }
}

impl TenantModeMismatch {
    /// The message that tells a client of the mismatch.
    pub fn message(&self) -> (message: String)
        ensures
            message@ == mismatch_message(*self),
    {
        match self {
            TenantModeMismatch::UnexpectedServiceId => String::from_str(
                "Circuit ID present, but grid is running in sawtooth mode",
            ),
            TenantModeMismatch::MissingServiceId => String::from_str(
                "Circuit ID is not present, but grid is running in splinter mode",
            ),
        }
    }
}

/// The mark of a request whose tenant scope matches the mode of the
/// deployment.
#[derive(Clone, Copy, Debug, PartialEq, Eq, Structural)]
pub struct AcceptServiceIdParam;

impl AcceptServiceIdParam {
    /// Accepts a request that names a tenant exactly where the deployment
    /// calls for one, and refuses every other.
    pub fn from_request(endpoint: &Endpoint, query: &QueryServiceId) -> (result: Result<
        AcceptServiceIdParam,
        TenantModeMismatch,
    >)
        ensures
            match mismatch(endpoint.backend == Backend::Sawtooth, query.service_id is Some) {
                Some(refusal) => result == Err::<AcceptServiceIdParam, TenantModeMismatch>(refusal),
                None => result is Ok,
            },
    {
        if query.service_id.is_some() && endpoint.is_sawtooth() {
            return Err(TenantModeMismatch::UnexpectedServiceId);
        } else if query.service_id.is_none() && !endpoint.is_sawtooth() {
            return Err(TenantModeMismatch::MissingServiceId);
        }
        Ok(AcceptServiceIdParam)
    }
}

} // verus!
