//! Error taxonomy of the vault core. Every failing operation aborts with one
//! of these tags and leaves no state change behind.

use vstd::prelude::*;

verus! {

/// Why a vault operation was rejected.
#[derive(Clone, Copy, Debug, PartialEq, Eq, Structural)]
pub enum VaultError {
    /// A claimed or stored record does not match the address derivation, a
    /// required account relation (owner, mint, authority) does not hold, or
    /// no usable derivation exists for the requested seeds.
    AuthorizationMismatch,
    /// The source balance is below the requested amount, checked before any
    /// transfer is attempted.
    InsufficientBalance,
    /// A vault record for the (owner, mint) pair already exists.
    DuplicateInitialization,
    /// The caller-supplied auxiliary account list is shorter than the fixed
    /// role set plus the per-market slices require.
    MissingAuxiliaryAccount,
    /// An external collaborator (token program or downstream protocol)
    /// reported a failure of its own; it is propagated opaquely.
    DownstreamFailure,
}

} // verus!
