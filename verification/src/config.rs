//! Configuration handed in by the service bootstrap: the raw textual
//! arguments are validated here, away from any argument or environment
//! handling, which stays with the callers.

use vstd::prelude::*;

verus! {

use vstd::string::StringExecFns;
use crate::pool::{WORKER_POOL_MAX_SIZE, WORKER_POOL_MIN_SIZE};
use crate::text::{parse_usize, parsed_usize, trim_spaces, trimmed};

/// Error returned when the server configuration cannot be validated.
#[derive(Debug)]
pub struct ServerConfigError {
    pub msg: String,
}

impl ServerConfigError {
    pub fn new(msg: String) -> (e: ServerConfigError)
        ensures
            e.msg@ == msg@,
    {
        ServerConfigError { msg }
    }
}

/// A validated server configuration: where to listen and how many workers
/// to run.
pub struct ServerConfig {
    pub host: String,
    pub port: String,
    pub pool_size: usize,
}

impl ServerConfig {
    /// Validate the raw textual arguments. The pool size is trimmed and
    /// parsed as a decimal, and accepted exactly when it parses and lies in
    /// `[WORKER_POOL_MIN_SIZE, WORKER_POOL_MAX_SIZE]`; host and port pass
    /// through untouched.
    pub fn new(host: String, port: String, pool_size: String) -> (r: Result<
        ServerConfig,
        ServerConfigError,
    >)
        ensures
            r is Ok <==> (parsed_usize(trimmed(pool_size@)) matches Some(v)
                && WORKER_POOL_MIN_SIZE <= v <= WORKER_POOL_MAX_SIZE),
            r matches Ok(c) ==> {
                &&& c.host@ == host@
                &&& c.port@ == port@
                &&& parsed_usize(trimmed(pool_size@)) == Some(c.pool_size)
            },
    {
        let t = trim_spaces(pool_size.as_str());
        let size = match parse_usize(t) {
            Some(v) => v,
            None => {
                return Err(
                    ServerConfigError::new(
                        String::from_str("failed to parse pool size as usize"),
                    ),
                );
            },
        };
        if size < WORKER_POOL_MIN_SIZE || size > WORKER_POOL_MAX_SIZE {
            return Err(ServerConfigError::new(String::from_str("invalid pool size")));
        }
        Ok(ServerConfig { host, port, pool_size: size })
    }
}

/// Error returned when the client configuration cannot be assembled.
#[derive(Debug)]
pub struct ClientConfigError {
    pub msg: String,
}

impl ClientConfigError {
    pub fn new(msg: String) -> (e: ClientConfigError)
        ensures
            e.msg@ == msg@,
    {
        ClientConfigError { msg }
    }
}

/// What the client needs: the server's address and the input and output
/// file paths. Presence of the values is the caller's concern; the record
/// itself carries them unchanged.
pub struct ClientConfig {
    pub server_addr: String,
    pub inpath: String,
    pub outpath: String,
}

impl ClientConfig {
    pub fn new(server_addr: String, inpath: String, outpath: String) -> (c: ClientConfig)
        ensures
            c.server_addr@ == server_addr@,
            c.inpath@ == inpath@,
            c.outpath@ == outpath@,
    {
        ClientConfig { server_addr, inpath, outpath }
    }
}

} // verus!
