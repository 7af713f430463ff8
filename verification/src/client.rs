use vstd::prelude::*;

verus! {

/// Clients are identified by a unique 16-bit number.
pub type ClientId = u16;

/// Represents a client's account.
///
/// Balances are fixed-point amounts held in signed 64-bit integers; the
/// scale (how many minor units make one major unit) is the caller's
/// choice and never enters the rules.
#[derive(Clone, Copy, Debug, PartialEq, Eq, Structural)]
pub struct Client {
    /// The total funds that are available for trading, staking,
    /// withdrawal, etc.
    pub funds_available: i64,

    /// The total funds that are held for dispute.
    pub funds_held: i64,

    /// Whether the account is locked. An account is locked if a charge
    /// back occurs.
    pub locked: bool,
}

impl Client {
    /// The account with no funds that is not locked.
    pub open spec fn zeroed() -> Client {
        Client { funds_available: 0, funds_held: 0, locked: false }
    }

    /// Creates an empty client with no funds and not locked.
    pub fn new() -> (c: Client)
        ensures
            c == Client::zeroed(),
    {
        Client { funds_available: 0, funds_held: 0, locked: false }
    }

    /// The sum of available and held funds, widened so that it always fits.
    pub fn funds_total(&self) -> (t: i128)
        ensures
            t == self.funds_available + self.funds_held,
    {
        (self.funds_available as i128) + (self.funds_held as i128)
    }
}

impl Default for Client {
    fn default() -> (c: Client)
        ensures
            c == Client::zeroed(),
    {
        Client::new()
    }
}

} // verus!
