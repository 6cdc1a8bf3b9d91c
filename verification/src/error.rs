//! Error kinds of the stack.

use vstd::prelude::*;

verus! {

/// `std::io::Error`, carried through unopened.
#[verifier::external_type_specification]
#[verifier::external_body]
pub struct ExIoError(std::io::Error);

/// Why a send did not reach the wire.
#[derive(Debug)]
pub enum TxError {
    /// The payload does not fit the interface's MTU.
    OversizedPacket,
    /// The sender was created before the interface last changed.
    InvalidTx,
    /// The datalink reported an error.
    IoError(std::io::Error),
    /// Anything else, in words.
    Other(String),
}

pub type TxResult = Result<(), TxError>;

/// Why a call on the stack failed.
#[derive(Debug)]
pub enum StackError {
    /// Duplicate local address, or no usable source address.
    IllegalArgument,
    NoRouteToHost,
    /// Unknown or duplicate interface.
    InvalidInterface,
    /// The port is already bound on that local address.
    AddrInUse,
    /// The address cannot be listened on.
    AddrNotAvailable,
    /// The address is bound nowhere in the stack.
    InvalidInput,
    TxError(TxError),
    IoError(std::io::Error),
}

pub type StackResult<T> = Result<T, StackError>;

impl StackError {
    /// A failed send, seen from the stack.
    pub fn from_tx(e: TxError) -> (r: StackError)
        ensures
            r == StackError::TxError(e),
    {
        StackError::TxError(e)
    }
}

} // verus!
