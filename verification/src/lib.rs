//! A transaction engine: replays deposits, withdrawals, disputes, resolutions
//! and chargebacks against per-client accounts and reports the final balances.

use crate::engine::{
    csv_read, events_of, replayed, report, text_outcome, Accounts, Engine, EngineError,
    EngineErrorKind,
};
use vstd::prelude::*;

pub mod account;
pub mod amount;
pub mod engine;
pub mod event;
pub mod laws;

verus! {

/// Identifies one client account.
#[derive(Debug, Default, Clone, Copy, PartialEq, Eq, Structural, Hash)]
pub struct ClientId(pub u16);

/// Identifies one deposit. Only deposits occupy the identifier space.
#[derive(Debug, Default, Clone, Copy, PartialEq, Eq, Structural, Hash)]
pub struct TransactionId(pub u32);

impl From<u16> for ClientId {
    fn from(value: u16) -> (id: ClientId) {
        ClientId(value)
    }
}

impl vstd::std_specs::convert::FromSpecImpl<u16> for ClientId {
    open spec fn obeys_from_spec() -> bool {
        true
    }

    open spec fn from_spec(value: u16) -> ClientId {
        ClientId(value)
    }
}

impl From<u32> for TransactionId {
    fn from(value: u32) -> (id: TransactionId) {
        TransactionId(value)
    }
}

impl vstd::std_specs::convert::FromSpecImpl<u32> for TransactionId {
    open spec fn obeys_from_spec() -> bool {
        true
    }

    open spec fn from_spec(value: u32) -> TransactionId {
        TransactionId(value)
    }
}

/// What a run makes of an input: the report on the accounts after the
/// replay of its events, starting without accounts; an error where the
/// input is malformed.
pub open spec fn run_outcome(input: Seq<u8>) -> Result<Seq<char>, EngineErrorKind> {
    if csv_read(input).1 {
        Err(EngineErrorKind::Csv)
    } else {
        report(replayed(Accounts::empty(), events_of(csv_read(input).0)))
    }
}

/// Replays an event log and reports the final state of every account.
pub fn run(input: &[u8]) -> (outcome: Result<String, EngineError>)
    ensures
        text_outcome(outcome) == run_outcome(input@),
{
    let mut engine = Engine::new();
    match engine.read_events(input) {
        Ok(_) => engine.write_accounts_state(),
        Err(error) => Err(error),
    }
}

} // verus!
