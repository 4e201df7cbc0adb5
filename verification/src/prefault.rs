//! The request to pre-fault guest memory.

use vstd::prelude::*;

verus! {

/// What the virtual machine manager is asked to do. `P` says which memory to pre-fault.
#[derive(Clone, Copy, Debug)]
pub enum VmmAction<P> {
    /// Pre-fault the selected guest memory.
    PreFaultMemory(P),
}

/// How an action is carried out.
#[derive(Clone, Copy, Debug)]
pub enum RequestAction<P> {
    /// The caller waits for it.
    Sync(VmmAction<P>),
}

/// A request whose body was understood.
#[derive(Clone, Copy, Debug)]
pub struct ParsedRequest<P> {
    /// What to do.
    pub action: RequestAction<P>,
}

/// Why a request was not understood. `E` is the parser's own error.
#[derive(Clone, Copy, Debug)]
pub enum RequestError<E> {
    /// The body is not the JSON that was expected.
    SerdeJson(E),
}

impl<P> ParsedRequest<P> {
    /// A request that is carried out while the caller waits.
    pub fn new_sync(action: VmmAction<P>) -> (request: ParsedRequest<P>)
        ensures
            request == (ParsedRequest { action: RequestAction::Sync(action) }),
    {
        ParsedRequest { action: RequestAction::Sync(action) }
    }
}

/// The request to pre-fault memory, given what parsing its body came to.
pub fn parse_put_pre_fault_memory<P, E>(body: Result<P, E>) -> (request: Result<
    ParsedRequest<P>,
    RequestError<E>,
>)
    ensures
        request == match body {
            Ok(which) => Ok::<ParsedRequest<P>, RequestError<E>>(
                ParsedRequest { action: RequestAction::Sync(VmmAction::PreFaultMemory(which)) },
            ),
            Err(error) => Err(RequestError::SerdeJson(error)),
        },
{
    match body {
        Ok(which) => Ok(ParsedRequest::new_sync(VmmAction::PreFaultMemory(which))),
        Err(error) => Err(RequestError::SerdeJson(error)),
    }
}

} // verus!
