//! Names of the node's storage directories.

use vstd::prelude::*;
use vstd::string::*;
use crate::text::{decimal, push_decimal};

verus! {

/// The directory, under the home directory, for Aleo-related resources.
pub const ALEO_DIRECTORY: &'static str = ".aleo";

/// The directory, under the storage directory, of the ledger of `network`
/// in production: `ledger-{network}`.
pub open spec fn production_ledger(network: nat) -> Seq<char> {
    seq!['l', 'e', 'd', 'g', 'e', 'r', '-'] + decimal(network)
}

/// The hidden directory, under the current directory, of the ledger of
/// `network` for the development node `id`: `.ledger-{network}-{id}`.
pub open spec fn development_ledger(network: nat, id: nat) -> Seq<char> {
    seq!['.'] + production_ledger(network) + seq!['-'] + decimal(id)
}

/// The name of the production ledger directory of `network`.
pub fn production_ledger_name(network: u16) -> (r: String)
    ensures
        r@ == production_ledger(network as nat),
{
    proof {
        reveal_strlit("ledger-");
    }
    let mut out = String::from_str("ledger-");
    push_decimal(&mut out, network as u64);
    assert(out@ =~= production_ledger(network as nat));
    out
}

/// The name of the development ledger directory of `network` for the
/// development node `id`.
pub fn development_ledger_name(network: u16, id: u16) -> (r: String)
    ensures
        r@ == development_ledger(network as nat, id as nat),
{
    proof {
        reveal_strlit(".");
        reveal_strlit("-");
    }
    let mut out = String::from_str(".");
    out.append(production_ledger_name(network).as_str());
    out.append("-");
    push_decimal(&mut out, id as u64);
    assert(out@ =~= development_ledger(network as nat, id as nat));
    out
}

} // verus!
