//! The failures that the oracle reports.
use vstd::prelude::*;

verus! {

/// Why an oracle operation was refused. Each aborts the whole operation.
#[derive(Debug, Clone, Copy, PartialEq, Eq, Structural)]
pub enum OracleError {
    /// A pool state buffer is too short, or its leading tag is wrong.
    DecodeError,
    /// Pool or dependency counts disagree with the handles supplied, no pool
    /// is configured, or a protocol tag is unknown.
    InvalidConfiguration,
    /// The registry was to be destroyed by someone other than the administrator.
    UnauthorizedAccess,
    /// The sum of the pool prices does not fit in 128 bits.
    ArithmeticOverflow,
}

} // verus!
