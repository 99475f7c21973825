//! The bundle middleware: wraps an inner provider plus a submission relay
//! and an optional separate simulation relay, and builds the two bundle
//! operations out of the relay client's verified pieces. The transport layer
//! asks for a request body, posts it, and hands the outcome back to the
//! finish step.

use vstd::prelude::*;
use vstd::string::*;
use crate::bundle::{SendBundleRequest, SimulateBundleRequest, StateBlockNumber, json_of_send,
    json_of_sim};
use crate::relay::{Relay, RelayError};
use crate::jsonrpc::request_body;

verus! {

/// The middleware's unified error: a relay-layer failure passed through
/// unchanged, an inner-provider failure, or a 2xx response that carried no
/// result where one was always expected.
pub enum TxBoostMiddlewareError<E> {
    /// The relay responded with an error.
    RelayError(RelayError),
    /// The inner provider failed.
    MiddlewareError(E),
    /// The relay reported success but returned no result.
    BundleSimError,
}

impl<E> TxBoostMiddlewareError<E> {
    /// Wraps an inner-provider error.
    pub fn from_err(src: E) -> (r: Self)
        ensures
            r == TxBoostMiddlewareError::MiddlewareError(src),
    {
        TxBoostMiddlewareError::MiddlewareError(src)
    }

    /// The inner-provider error, when this is one.
    pub fn as_inner(&self) -> (r: Option<&E>)
        ensures
            self matches TxBoostMiddlewareError::MiddlewareError(e) ==> (r matches Some(x)
                && *x == e),
            !(self matches TxBoostMiddlewareError::MiddlewareError(e)) ==> r is None,
    {
        match self {
            TxBoostMiddlewareError::MiddlewareError(e) => Some(e),
            _ => None,
        }
    }
}

/// A provider middleware that can submit bundles to a relay: the wrapped
/// inner provider, the submission relay, and an optional separate relay for
/// simulations (simulations fall back to the submission relay without one).
pub struct TxBoostMiddleware<M, S> {
    pub inner: M,
    pub relay: Relay<S>,
    pub simulation_relay: Option<Relay<S>>,
}

impl<M, S> TxBoostMiddleware<M, S> {
    /// Assembles the middleware around an inner provider.
    pub fn new(inner: M, relay: Relay<S>, simulation_relay: Option<Relay<S>>) -> (r: Self)
        ensures
            r.inner == inner,
            r.relay == relay,
            r.simulation_relay == simulation_relay,
    {
        TxBoostMiddleware { inner, relay, simulation_relay }
    }

    /// The submission relay.
    pub fn relay(&self) -> (r: &Relay<S>)
        ensures
            *r == self.relay,
    {
        &self.relay
    }

    /// The simulation relay, when a separate one was configured.
    pub fn simulation_relay(&self) -> (r: Option<&Relay<S>>)
        ensures
            self.simulation_relay matches Some(sr) ==> (r matches Some(x) && *x == sr),
            self.simulation_relay is None ==> r is None,
    {
        self.simulation_relay.as_ref()
    }

    /// Unwraps the inner provider.
    pub fn into_inner(self) -> (r: M)
        ensures
            r == self.inner,
    {
        self.inner
    }

    /// Builds the `eth_sendBundle` request body for the submission relay,
    /// taking that relay's next id; the parameters are the one-element list
    /// holding the bundle.
    pub fn send_bundle_body(&mut self, bundle: &SendBundleRequest) -> (r: String)
        requires
            old(self).relay.id < u64::MAX,
            old(self).relay.wf(),
        ensures
            final(self).inner == old(self).inner,
            final(self).simulation_relay == old(self).simulation_relay,
            final(self).relay.wf(),
            final(self).relay.id == old(self).relay.id + 1,
            final(self).relay.issued@ == old(self).relay.issued@.push(
                (old(self).relay.id + 1) as u64),
            final(self).relay.url@ == old(self).relay.url@,
            final(self).relay.signer == old(self).relay.signer,
            final(self).relay.authorization_key@ == old(self).relay.authorization_key@,
            r@ == request_body((old(self).relay.id + 1) as nat, "eth_sendBundle"@,
                "["@ + json_of_send(*bundle) + "]"@),
    {
        let params = one_element_list(bundle.encode());
        self.relay.begin_request("eth_sendBundle", params.as_str())
    }

    /// Builds the `eth_callBundle` request body, taking the next id of the
    /// simulation relay when one is configured and of the submission relay
    /// otherwise.
    pub fn simulate_bundle_body(&mut self, bundle: &SimulateBundleRequest) -> (r: String)
        requires
            old(self).relay.id < u64::MAX,
            old(self).relay.wf(),
            old(self).simulation_relay matches Some(sr) ==> sr.id < u64::MAX && sr.wf(),
        ensures
            final(self).inner == old(self).inner,
            old(self).simulation_relay matches Some(osr) ==> (
                final(self).simulation_relay matches Some(sr) && sr.wf()
                && final(self).relay == old(self).relay
                && sr.id == osr.id + 1 && sr.issued@ == osr.issued@.push((osr.id + 1) as u64)
                && sr.url@ == osr.url@ && sr.signer == osr.signer
                && sr.authorization_key@ == osr.authorization_key@
                && r@ == request_body((osr.id + 1) as nat, "eth_callBundle"@,
                    "["@ + json_of_sim(*bundle) + "]"@)),
            old(self).simulation_relay is None ==> (final(self).simulation_relay is None
                && final(self).relay.wf() && final(self).relay.id == old(self).relay.id + 1
                && final(self).relay.issued@ == old(self).relay.issued@.push(
                    (old(self).relay.id + 1) as u64)
                && final(self).relay.url@ == old(self).relay.url@
                && final(self).relay.signer == old(self).relay.signer
                && final(self).relay.authorization_key@ == old(self).relay.authorization_key@
                && r@ == request_body((old(self).relay.id + 1) as nat, "eth_callBundle"@,
                    "["@ + json_of_sim(*bundle) + "]"@)),
    {
        let params = one_element_list(bundle.encode());
        if self.simulation_relay.is_some() {
            let mut sr = self.simulation_relay.take().unwrap();
            let body = sr.begin_request("eth_callBundle", params.as_str());
            self.simulation_relay = Some(sr);
            body
        } else {
            self.relay.begin_request("eth_callBundle", params.as_str())
        }
    }
}

/// Wraps already-encoded JSON text in a one-element JSON list.
fn one_element_list(element: String) -> (r: String)
    ensures
        r@ == "["@ + element@ + "]"@,
{
    let mut out = String::from_str("[");
    out.append(element.as_str());
    out.append("]");
    proof {
        assert(out@ =~= "["@ + element@ + "]"@);
    }
    out
}

/// Turns a relay outcome into the bundle operation's result: a missing
/// result on success is an error of its own, since a response is always
/// expected; relay errors pass through unchanged.
pub fn finish_bundle_response<E>(outcome: Result<Option<String>, RelayError>) -> (r: Result<
    String,
    TxBoostMiddlewareError<E>,
>)
    ensures
        outcome matches Ok(Some(t)) ==> (r matches Ok(t2) && t2 == t),
        outcome matches Ok(None) ==> r matches Err(TxBoostMiddlewareError::BundleSimError),
        outcome matches Err(e) ==> (r matches Err(TxBoostMiddlewareError::RelayError(e2))
            && e2 == e),
{
    match outcome {
        Ok(Some(t)) => Ok(t),
        Ok(None) => Err(TxBoostMiddlewareError::BundleSimError),
        Err(e) => Err(TxBoostMiddlewareError::RelayError(e)),
    }
}

/// Gas and price accounting for a submitted bundle, as the relay reports it.
#[derive(Clone, Debug)]
pub struct SendBundleResponse {
    pub bundle_gas_price: String,
    pub bundle_hash: String,
    pub coinbase_diff: String,
    pub eth_sent_to_coinbase: String,
    pub gas_fees: String,
    pub results: Vec<SendBundleResult>,
    pub state_block_number: u64,
    pub total_gas_used: u64,
}

/// Per-transaction accounting inside a `SendBundleResponse`.
#[derive(Clone, Debug)]
pub struct SendBundleResult {
    pub bundle_hash: String,
    pub coinbase_diff: String,
    pub eth_sent_to_coinbase: String,
    pub gas_fees: String,
    pub state_block_number: u64,
    pub total_gas_used: u64,
}

/// A simulated bundle's outcome.
#[derive(Clone, Debug)]
pub struct SimulatedBundleResponse {
    pub txs: Vec<String>,
    pub block_number: u64,
    pub state_block_number: StateBlockNumber,
    pub timestamp: Option<u64>,
}

} // verus!
