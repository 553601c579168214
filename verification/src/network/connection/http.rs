//! The HTTP framing: an envelope is the body of a POST request, and the
//! body of the response is an envelope. Nothing is kept between requests.

use crate::error::Error;
use crate::tl::parsing::copy_range;
use vstd::prelude::*;

verus! {

/// The method of every request.
pub const METHOD: &'static str = "POST";

/// The content type of every request.
pub const CONTENT_TYPE: &'static str = "application/octet-stream";

/// The framing of a connection over HTTP.
#[derive(Debug)]
pub struct ConnectionHttp {}

impl ConnectionHttp {
    /// The framing of a connection over HTTP.
    pub fn new() -> ConnectionHttp {
        ConnectionHttp {  }
    }

    /// The body of the request that carries `payload`: the payload itself.
    pub fn frame(&self, payload: &[u8]) -> (r: Result<Vec<u8>, Error>)
        ensures
            r is Ok,
            r->Ok_0@ == payload@,
    {
        let body = copy_range(payload, 0, payload.len());
        assert(body@ =~= payload@);
        Ok(body)
    }

    /// The payload that the body of a response carries: the body itself.
    pub fn parse(body: &[u8]) -> (r: Result<Vec<u8>, Error>)
        ensures
            r is Ok,
            r->Ok_0@ == body@,
    {
        let payload = copy_range(body, 0, body.len());
        assert(payload@ =~= body@);
        Ok(payload)
    }
}

} // verus!
