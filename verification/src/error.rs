//! The uniform failure taxonomy every operation reports through.
use vstd::prelude::*;
use crate::xml::{ErrV, ReplyElemV, RPCError, RPCReplyCommand};

verus! {

/// Ghost view of a failure.
pub ghost enum NETCONFErrorV {
    /// Transport failure: a read or write failed or the stream ended early.
    IoError,
    /// Decode failure: malformed XML or an element outside the schema.
    XmlError,
    /// The reply ended without the operation's required success marker.
    MissingOk,
    /// A reply element that is not valid at its scan position.
    UnexpectedCommand(ReplyElemV),
    /// A server-reported error of fatal severity.
    RpcError(ErrV),
}

/// What an operation reports when it fails.
#[derive(Debug, Clone, PartialEq, Eq)]
pub enum NETCONFError {
    IoError,
    XmlError,
    MissingOk,
    UnexpectedCommand(RPCReplyCommand),
    RpcError(RPCError),
}

impl View for NETCONFError {
    type V = NETCONFErrorV;

    open spec fn view(&self) -> NETCONFErrorV {
        match self {
            NETCONFError::IoError => NETCONFErrorV::IoError,
            NETCONFError::XmlError => NETCONFErrorV::XmlError,
            NETCONFError::MissingOk => NETCONFErrorV::MissingOk,
            NETCONFError::UnexpectedCommand(c) => NETCONFErrorV::UnexpectedCommand(c@),
            NETCONFError::RpcError(e) => NETCONFErrorV::RpcError(e@),
        }
    }
}

/// The result type every operation returns.
pub type NETCONFResult<T> = Result<T, NETCONFError>;

} // verus!
