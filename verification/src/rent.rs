//! The minimum-balance oracle: how many lamports storage of a given size
//! must hold to stay alive rent-free indefinitely.

use vstd::prelude::*;

verus! {

/// Largest storage size the host permits, in bytes.
pub const MAX_PERMITTED_DATA_LENGTH: usize = 10485760;

/// Relies on `Rent::minimum_balance` of solana-program: under the default
/// rent configuration (an exemption threshold of one and 6960 lamports per
/// byte) the minimum balance for `data_len` bytes is
/// `(128 + data_len) * 6960`, where 128 bytes is the account storage
/// overhead, for any size the host permits.
#[verifier::external_body]
fn default_rent_minimum_balance(data_len: usize) -> (r: u64)
    requires
        data_len <= MAX_PERMITTED_DATA_LENGTH,
    ensures
        r == (128 + data_len as int) * 6960,
{
    solana_program::rent::Rent::default().minimum_balance(data_len)
}

/// The funding a record's storage of `size` bytes needs under the host's
/// default rent configuration.
pub fn min_balance_for(size: usize) -> (r: u64)
    requires
        size <= MAX_PERMITTED_DATA_LENGTH,
    ensures
        r == (128 + size as int) * 6960,
{
    default_rent_minimum_balance(size)
}

} // verus!
