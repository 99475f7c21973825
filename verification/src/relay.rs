//! The relay client's verified half: request-id sequencing, envelope
//! construction, and the classification of an HTTP response into the
//! transport / client / protocol / malformed error taxonomy. Performing the
//! HTTP POST itself is the caller's affair; it hands the status code and the
//! body text back to `finish_response`.

use vstd::prelude::*;
use vstd::string::*;
use crate::jsonrpc::{Decoded, SpecDecoded, decode_response, encode_request, int_dec,
    request_body};
use crate::text::{str_eq, u64_to_dec};

verus! {

/// One authenticated relay endpoint: its URL, the authorization header value
/// fixed at construction, an optional signer capability (stored for the
/// transport layer, not consulted by the verified logic), and the request-id
/// counter. `issued` records every id handed out, so that the sequencing law
/// can be stated.
pub struct Relay<S> {
    pub id: u64,
    pub url: String,
    pub signer: Option<S>,
    pub authorization_key: String,
    pub issued: Ghost<Seq<u64>>,
}

/// Errors for relay requests.
pub enum RelayError {
    /// A 4xx response; `text` is the raw response body.
    ClientError { text: String },
    /// A 5xx response or a transport failure; `text` describes it.
    RequestError { text: String },
    /// A well-formed JSON-RPC error reported by the relay.
    ResponseSerdeJson { text: String },
    /// The response body was not a well-formed JSON-RPC response.
    MalformedResponse { text: String },
}

/// The text carried by a protocol error: the relay's code and message.
pub open spec fn protocol_error_text(code: int, message: Seq<char>) -> Seq<char> {
    "error response: code "@ + int_dec(code) + ", message: "@ + message
}

/// How `finish_response` reads a decoded 2xx body: malformed bodies and
/// relay-reported errors fail, a `null` result is an absent value, anything
/// else is the raw result text.
pub open spec fn decoded_outcome(r: Result<Option<String>, RelayError>, d: SpecDecoded,
    body: Seq<char>) -> bool {
    match d {
        SpecDecoded::Malformed => r matches Err(RelayError::MalformedResponse { text })
            && text@ == body,
        SpecDecoded::Success { id, result } => if result == "null"@ {
            r matches Ok(o) && o is None
        } else {
            r matches Ok(o) && o matches Some(t) && t@ == result
        },
        SpecDecoded::Failure { id, code, message, data } => r matches Err(
            RelayError::ResponseSerdeJson { text },
        ) && text@ == protocol_error_text(code, message),
    }
}

impl<S> Relay<S> {
    /// The ids this instance has handed out are exactly 1 up to the counter.
    pub open spec fn wf(self) -> bool {
        self.issued@ == Seq::new(self.id as nat, |i: int| (i + 1) as u64)
    }

    /// Initializes a new relay client for the given endpoint. The first
    /// request will carry id 1.
    pub fn new(url: String, signer: Option<S>, authorization_key: String) -> (r: Self)
        ensures
            r.id == 0,
            r.url@ == url@,
            r.signer == signer,
            r.authorization_key@ == authorization_key@,
            r.issued@ == Seq::<u64>::empty(),
            r.wf(),
    {
        let r = Relay { id: 0, url, signer, authorization_key, issued: Ghost(Seq::empty()) };
        proof {
            assert(r.issued@ =~= Seq::new(0, |i: int| (i + 1) as u64));
        }
        r
    }

    /// The endpoint URL.
    pub fn url(&self) -> (r: &str)
        ensures
            r@ == self.url@,
    {
        self.url.as_str()
    }

    /// The authorization header value fixed at construction.
    pub fn authorization_key(&self) -> (r: &str)
        ensures
            r@ == self.authorization_key@,
    {
        self.authorization_key.as_str()
    }

    /// Hands out the next request id: an atomic read-and-increment of the
    /// counter, owed to be one past everything issued before.
    pub fn next_id(&mut self) -> (r: u64)
        requires
            old(self).id < u64::MAX,
            old(self).wf(),
        ensures
            r == old(self).id + 1,
            final(self).id == r,
            final(self).issued@ == old(self).issued@.push(r),
            final(self).wf(),
            final(self).url@ == old(self).url@,
            final(self).signer == old(self).signer,
            final(self).authorization_key@ == old(self).authorization_key@,
    {
        self.id = self.id + 1;
        let ghost previous = self.issued@;
        self.issued = Ghost(self.issued@.push(self.id));
        proof {
            assert(previous.push(self.id) =~= Seq::new(self.id as nat, |i: int| (i + 1) as u64));
        }
        self.id
    }

    /// Takes the next id and builds the signed-off request envelope for the
    /// given method around already-encoded parameters.
    pub fn begin_request(&mut self, method: &str, params_json: &str) -> (r: String)
        requires
            old(self).id < u64::MAX,
            old(self).wf(),
        ensures
            final(self).id == old(self).id + 1,
            final(self).issued@ == old(self).issued@.push((old(self).id + 1) as u64),
            final(self).wf(),
            final(self).url@ == old(self).url@,
            final(self).signer == old(self).signer,
            final(self).authorization_key@ == old(self).authorization_key@,
            r@ == request_body((old(self).id + 1) as nat, method@, params_json@),
    {
        let id = self.next_id();
        encode_request(id, method, params_json)
    }
}

impl<S: Clone> Clone for Relay<S> {
    /// A clone shares the endpoint, signer and authorization value but gets
    /// a fresh id counter: its ids start again at 1.
    fn clone(&self) -> (r: Self)
        ensures
            r.id == 0,
            r.url@ == self.url@,
            r.authorization_key@ == self.authorization_key@,
            r.issued@ == Seq::<u64>::empty(),
            r.wf(),
    {
        let r = Relay {
            id: 0,
            url: self.url.clone(),
            signer: self.signer.clone(),
            authorization_key: self.authorization_key.clone(),
            issued: Ghost(Seq::empty()),
        };
        proof {
            assert(r.issued@ =~= Seq::new(0, |i: int| (i + 1) as u64));
        }
        r
    }
}

/// The ids a relay instance has issued form a strictly increasing sequence
/// that starts at 1 and has no duplicates: the i-th id handed out is i + 1.
pub proof fn lemma_ids_strictly_increasing<S>(r: Relay<S>)
    requires
        r.wf(),
    ensures
        forall|i: int, j: int| 0 <= i < j < r.issued@.len()
            ==> #[trigger] r.issued@[i] < #[trigger] r.issued@[j],
        r.issued@.len() > 0 ==> r.issued@[0] == 1,
        forall|i: int| 0 <= i < r.issued@.len() ==> #[trigger] r.issued@[i] == i + 1,
{
}

/// Renders a possibly negative code in decimal.
fn i64_to_dec(code: i64) -> (r: String)
    ensures
        r@ == int_dec(code as int),
{
    if code < 0 {
        let mag: u64 = (-(code as i128)) as u64;
        let mut out = String::from_str("-");
        let ds = u64_to_dec(mag);
        out.append(ds.as_str());
        proof {
            reveal_strlit("-");
            assert(out@ =~= int_dec(code as int));
        }
        out
    } else {
        u64_to_dec(code as u64)
    }
}

/// Turns an HTTP status and response body into the request's outcome:
/// 4xx is a client error carrying the body text, 5xx a request error,
/// and anything else is read as a JSON-RPC response body.
pub fn finish_response(status: u16, body: &str) -> (r: Result<Option<String>, RelayError>)
    ensures
        400 <= status <= 499 ==> (r matches Err(RelayError::ClientError { text })
            && text@ == body@),
        500 <= status <= 599 ==> (r matches Err(RelayError::RequestError { text })
            && text@ == body@),
        !(400 <= status <= 599) ==> decoded_outcome(r, crate::jsonrpc::spec_decode(body@),
            body@),
{
    if 400 <= status && status <= 499 {
        Err(RelayError::ClientError { text: String::from_str(body) })
    } else if 500 <= status && status <= 599 {
        Err(RelayError::RequestError { text: String::from_str(body) })
    } else {
        match decode_response(body) {
            Decoded::Malformed => Err(RelayError::MalformedResponse {
                text: String::from_str(body),
            }),
            Decoded::Success { id: _, result } => {
                if str_eq(result.as_str(), "null") {
                    Ok(None)
                } else {
                    Ok(Some(result))
                }
            },
            Decoded::Failure { id: _, error } => {
                let mut text = String::from_str("error response: code ");
                let cs = i64_to_dec(error.code);
                text.append(cs.as_str());
                text.append(", message: ");
                text.append(error.message.as_str());
                proof {
                    assert(text@ =~= protocol_error_text(error.code as int, error.message@));
                }
                Err(RelayError::ResponseSerdeJson { text })
            },
        }
    }
}

} // verus!
